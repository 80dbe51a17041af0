//! The texts of the status line.
use crate::meter::{Live, Status};
use crate::text::{decimal, decimal_text, join, pad_left, padded};
use crate::watts::law_sign_shows_in_the_bits;
use vstd::prelude::*;

verus! {

/// The columns of a power figure.
pub const FIGURE_WIDTH: usize = 4;

/// The columns of the window's length.
pub const MINUTES_WIDTH: usize = 3;

/// The power figures of the status line, each rounded to whole watts and written in decimal.
#[derive(Debug)]
pub struct Figures {
    pub current: String,
    pub min: String,
    pub max: String,
    pub avg: String,
}

/// The colour of the status line.
#[derive(Clone, Copy, Debug, PartialEq, Eq, Structural)]
pub enum Shade {
    Red,
    Green,
    Yellow,
}

/// What happens to the status label of the window.
#[derive(Debug)]
pub enum LabelUpdate {
    /// It stays as it is.
    Keep,
    /// Its label is set to this text.
    Label(String),
    /// Its markup is set to this text.
    Markup(String),
}

/// The figures of the samples in one line.
pub open spec fn figures_line(figures: Figures, minutes: nat) -> Seq<char> {
    "Current: "@ + padded(figures.current@, FIGURE_WIDTH as nat) + " W | Min: "@ + padded(
        figures.min@,
        FIGURE_WIDTH as nat,
    ) + " W | Max: "@ + padded(figures.max@, FIGURE_WIDTH as nat) + " W | Avg: "@ + padded(
        figures.avg@,
        FIGURE_WIDTH as nat,
    ) + " W | Sample window: "@ + padded(decimal_text(minutes), MINUTES_WIDTH as nat) + " min"@
}

/// The colour of the current value: red for power from the grid. Here zero counts as green.
pub open spec fn live_shade(live: Live) -> Shade {
    if !live.current.is_nan() && live.current.units() > 0 {
        Shade::Red
    } else {
        Shade::Green
    }
}

/// The colour as markup writes it.
pub open spec fn live_colour(live: Live) -> Seq<char> {
    if live_shade(live) == Shade::Red {
        "#FF0000"@
    } else {
        "#00FF00"@
    }
}

/// The text and the colour of the status line in the terminal.
pub open spec fn terminal_line(status: Status, figures: Figures) -> (Seq<char>, Shade) {
    match status {
        Status::Failure(message) => ("Error: "@ + message@, Shade::Red),
        Status::Live(live) => (figures_line(figures, live.minutes as nat), live_shade(live)),
        Status::Waiting => ("Waiting for data..."@, Shade::Yellow),
    }
}

impl LabelUpdate {
    /// The update belongs to this status.
    pub open spec fn shows(self, status: Status, figures: Figures) -> bool {
        match status {
            Status::Failure(message) => self matches LabelUpdate::Label(text) && text@ == "Error: "@
                + message@,
            Status::Live(live) => self matches LabelUpdate::Markup(text) && text@
                == "<span foreground='"@ + live_colour(live) + "'>"@ + figures_line(
                figures,
                live.minutes as nat,
            ) + "</span>"@,
            Status::Waiting => self is Keep,
        }
    }
}

fn add_figure(line: &mut String, label: &str, figure: &str)
    ensures
        final(line)@ == old(line)@ + label@ + padded(figure@, FIGURE_WIDTH as nat),
{
    line.append(label);
    line.append(pad_left(figure, FIGURE_WIDTH).as_str());
}

/// Writes the figures of the samples in one line.
pub fn write_figures(figures: &Figures, minutes: usize) -> (line: String)
    ensures
        line@ == figures_line(*figures, minutes as nat),
{
    let mut line = String::new();
    add_figure(&mut line, "Current: ", figures.current.as_str());
    add_figure(&mut line, " W | Min: ", figures.min.as_str());
    add_figure(&mut line, " W | Max: ", figures.max.as_str());
    add_figure(&mut line, " W | Avg: ", figures.avg.as_str());
    line.append(" W | Sample window: ");
    line.append(pad_left(decimal(minutes as u64).as_str(), MINUTES_WIDTH).as_str());
    line.append(" min");
    line
}

fn shade_of(live: &Live) -> (shade: Shade)
    ensures
        shade == live_shade(*live),
{
    if live.current.above_zero() {
        Shade::Red
    } else {
        Shade::Green
    }
}

/// The text and the colour of the status line in the terminal. The figures are used only where
/// there are samples.
pub fn terminal_status(status: &Status, figures: &Figures) -> (line: (String, Shade))
    ensures
        (line.0@, line.1) == terminal_line(*status, *figures),
{
    match status {
        Status::Failure(message) => (join("Error: ", message.as_str()), Shade::Red),
        Status::Live(live) => (write_figures(figures, live.minutes), shade_of(live)),
        Status::Waiting => ("Waiting for data...".to_owned(), Shade::Yellow),
    }
}

/// What the status label of the window becomes. The figures are used only where there are
/// samples.
pub fn label_update(status: &Status, figures: &Figures) -> (update: LabelUpdate)
    ensures
        update.shows(*status, *figures),
{
    match status {
        Status::Failure(message) => LabelUpdate::Label(join("Error: ", message.as_str())),
        Status::Live(live) => {
            let mut text = "<span foreground='".to_owned();
            match shade_of(live) {
                Shade::Red => text.append("#FF0000"),
                _ => text.append("#00FF00"),
            }
            text.append("'>");
            text.append(write_figures(figures, live.minutes).as_str());
            text.append("</span>");
            LabelUpdate::Markup(text)
        },
        Status::Waiting => LabelUpdate::Keep,
    }
}

/// The first text of the window's status label.
pub fn waiting_label(api_url: &str) -> (text: String)
    ensures
        text@ == "Waiting for data from: "@ + api_url@,
{
    join("Waiting for data from: ", api_url)
}

/// Reading the line from the left, each figure follows its own label, padded to four columns, and
/// the length of the window stands at the end, padded to three; this holds for every length.
pub proof fn law_each_figure_follows_its_label(figures: Figures, minutes: nat)
    ensures
        ({
            let line = figures_line(figures, minutes);
            let current: int = 9 + padded(figures.current@, 4).len() as int;
            let min: int = current + 10 + padded(figures.min@, 4).len();
            let max: int = min + 10 + padded(figures.max@, 4).len();
            let avg: int = max + 10 + padded(figures.avg@, 4).len();
            let end: int = avg + 20 + padded(decimal_text(minutes), 3).len();
            &&& line.subrange(0, 9) == "Current: "@
            &&& line.subrange(9, current) == padded(figures.current@, 4)
            &&& line.subrange(current, current + 10) == " W | Min: "@
            &&& line.subrange(current + 10, min) == padded(figures.min@, 4)
            &&& line.subrange(min, min + 10) == " W | Max: "@
            &&& line.subrange(min + 10, max) == padded(figures.max@, 4)
            &&& line.subrange(max, max + 10) == " W | Avg: "@
            &&& line.subrange(max + 10, avg) == padded(figures.avg@, 4)
            &&& line.subrange(avg, avg + 20) == " W | Sample window: "@
            &&& line.subrange(avg + 20, end) == padded(decimal_text(minutes), 3)
            &&& line.subrange(end, line.len() as int) == " min"@
        }),
{
    reveal_strlit("Current: ");
    reveal_strlit(" W | Min: ");
    reveal_strlit(" W | Max: ");
    reveal_strlit(" W | Avg: ");
    reveal_strlit(" W | Sample window: ");
    reveal_strlit(" min");
}

/// The length of the window changes nothing of the line but its own text: with the same figures
/// two lines are alike up to there.
pub proof fn law_minutes_change_only_the_end(figures: Figures, m: nat, n: nat)
    ensures
        ({
            let (a, b) = (figures_line(figures, m), figures_line(figures, n));
            let shared = a.len() - padded(decimal_text(m), 3).len() - 4;
            &&& shared == b.len() - padded(decimal_text(n), 3).len() - 4
            &&& a.take(shared) == b.take(shared)
            &&& a.skip(shared) == padded(decimal_text(m), 3) + " min"@
            &&& b.skip(shared) == padded(decimal_text(n), 3) + " min"@
        }),
{
    reveal_strlit(" min");
}

/// The colour of the samples is red if and only if the current value is a number above zero, by
/// value and by bits, and the markup names that colour.
pub proof fn law_colour_is_red_above_zero(live: Live)
    ensures
        live_shade(live) == Shade::Red <==> !live.current.is_nan() && live.current.units() > 0,
        live_shade(live) == Shade::Red <==> 0 < live.current.bits <= 0x7ff0_0000_0000_0000,
        live_shade(live) != Shade::Red ==> live_shade(live) == Shade::Green,
        live_shade(live) == Shade::Red ==> live_colour(live) == "#FF0000"@,
        live_shade(live) == Shade::Green ==> live_colour(live) == "#00FF00"@,
{
    law_sign_shows_in_the_bits(live.current);
}

/// The terminal shows a failure in red with its whole message, the samples with their figures,
/// and otherwise in yellow that it waits. Figures matter only where there are samples.
pub proof fn law_terminal_line_follows_the_status(status: Status, figures: Figures, others: Figures)
    ensures
        status matches Status::Failure(message) ==> {
            let (text, shade) = terminal_line(status, figures);
            &&& shade == Shade::Red
            &&& text.take(7) == "Error: "@
            &&& text.skip(7) == message@
        },
        status matches Status::Live(live) ==> {
            let (text, shade) = terminal_line(status, figures);
            &&& shade == Shade::Red <==> !live.current.is_nan() && live.current.units() > 0
            &&& shade != Shade::Yellow
            &&& text == figures_line(figures, live.minutes as nat)
        },
        status is Waiting ==> terminal_line(status, figures) == (
            "Waiting for data..."@,
            Shade::Yellow,
        ),
        status !is Live ==> terminal_line(status, figures) == terminal_line(status, others),
{
    reveal_strlit("Error: ");
}

/// The window says what the terminal says: a failure in the same words, the samples in the same
/// words between tags that give the same colour; and while it waits its label stays.
pub proof fn law_window_and_terminal_say_the_same(
    status: Status,
    figures: Figures,
    update: LabelUpdate,
)
    requires
        update.shows(status, figures),
    ensures
        ({
            let (text, shade) = terminal_line(status, figures);
            &&& update is Keep <==> status is Waiting
            &&& update is Label <==> status is Failure
            &&& update is Markup <==> status is Live
            &&& update matches LabelUpdate::Label(label) ==> label@ == text
            &&& update matches LabelUpdate::Markup(markup) ==> {
                &&& shade == Shade::Red ==> markup@ == "<span foreground='"@ + "#FF0000"@ + "'>"@
                    + text + "</span>"@
                &&& shade == Shade::Green ==> markup@ == "<span foreground='"@ + "#00FF00"@ + "'>"@
                    + text + "</span>"@
                &&& shade != Shade::Yellow
            }
        }),
{
}

} // verus!
