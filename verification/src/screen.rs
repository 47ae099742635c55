//! What is written on the screen, and in which style.
use vstd::prelude::*;

use crate::text::decimal;
use crate::text::decimal_text;

verus! {

/// A color of the screen.
#[derive(Debug, Clone, Copy, Eq, PartialEq, Structural)]
pub enum Color {
    Black,
    Gray,
    DarkGray,
    Cyan,
    Yellow,
}

/// How a text looks. Without a color it has the one of the terminal.
#[derive(Debug, Clone, Copy, Eq, PartialEq, Structural)]
pub struct TextStyle {
    pub fg: Option<Color>,
    pub bg: Option<Color>,
    pub bold: bool,
    pub dim: bool,
}

/// A text in one style.
#[derive(Debug)]
pub struct Span {
    pub text: String,
    pub style: TextStyle,
}

/// What a text in one style shows.
pub struct SpanView {
    pub text: Seq<char>,
    pub style: TextStyle,
}

impl View for Span {
    type V = SpanView;

    open spec fn view(&self) -> SpanView {
        SpanView { text: self.text@, style: self.style }
    }
}

/// What a line shows.
pub open spec fn line_view(line: Seq<Span>) -> Seq<SpanView> {
    line.map_values(|span: Span| span@)
}

/// What lines show.
pub open spec fn lines_view(lines: Seq<Vec<Span>>) -> Seq<Seq<SpanView>> {
    lines.map_values(|line: Vec<Span>| line_view(line@))
}

/// The look of plain text.
pub open spec fn plain_look() -> TextStyle {
    TextStyle { fg: None, bg: None, bold: false, dim: false }
}

/// The look of the name of a key.
pub open spec fn key_look() -> TextStyle {
    TextStyle { fg: Some(Color::Black), bg: Some(Color::Gray), bold: false, dim: false }
}

/// The look of a label or heading.
pub open spec fn label_look() -> TextStyle {
    TextStyle { fg: Some(Color::Yellow), bg: None, bold: true, dim: false }
}

/// The look of the name of the program.
pub open spec fn name_look() -> TextStyle {
    TextStyle { fg: Some(Color::Cyan), bg: None, bold: true, dim: false }
}

/// The look of what is selected: it stands out in the pane that the keys act on, and is subdued in
/// the other.
pub open spec fn selected_look(focused: bool) -> TextStyle {
    TextStyle {
        fg: Some(Color::Yellow),
        bg: if focused {
            Some(Color::DarkGray)
        } else {
            None
        },
        bold: focused,
        dim: !focused,
    }
}

/// The style of plain text.
pub fn plain_style() -> (style: TextStyle)
    ensures
        style == plain_look(),
{
    TextStyle { fg: None, bg: None, bold: false, dim: false }
}

/// The style of the name of a key.
pub fn key_style() -> (style: TextStyle)
    ensures
        style == key_look(),
{
    TextStyle { fg: Some(Color::Black), bg: Some(Color::Gray), ..plain_style() }
}

/// The style of a label in the details.
pub fn detail_label_style() -> (style: TextStyle)
    ensures
        style == label_look(),
{
    TextStyle { fg: Some(Color::Yellow), bold: true, ..plain_style() }
}

/// The style of what is selected.
pub fn selected_style(focused: bool) -> (style: TextStyle)
    ensures
        style == selected_look(focused),
{
    let style: TextStyle = TextStyle { fg: Some(Color::Yellow), ..plain_style() };
    if focused {
        TextStyle { bold: true, bg: Some(Color::DarkGray), ..style }
    } else {
        TextStyle { dim: true, ..style }
    }
}

/// A text in plain style.
pub open spec fn raw(text: Seq<char>) -> SpanView {
    SpanView { text, style: plain_look() }
}

/// A text in the style of a label.
pub open spec fn label(text: Seq<char>) -> SpanView {
    SpanView { text, style: label_look() }
}

/// A text in the style of the name of a key.
pub open spec fn key_name(text: Seq<char>) -> SpanView {
    SpanView { text, style: key_look() }
}

/// A text in plain style.
pub fn raw_span(text: String) -> (span: Span)
    ensures
        span@ == raw(text@),
{
    Span { text, style: plain_style() }
}

/// A text in the style of a label.
pub fn label_span(text: &str) -> (span: Span)
    ensures
        span@ == label(text@),
{
    Span { text: text.to_owned(), style: detail_label_style() }
}

/// A text in the style of the name of a key.
pub fn key_span(text: &str) -> (span: Span)
    ensures
        span@ == key_name(text@),
{
    Span { text: text.to_owned(), style: key_style() }
}

/// The line at the bottom of the screen.
pub open spec fn footer_view(chart_height: nat, listen: Seq<char>) -> Seq<SpanView> {
    seq![
        key_name(" q "@),
        raw(" quit  "@),
        key_name(" Tab "@),
        raw(" focus  "@),
        key_name(" PgUp/PgDn "@),
        raw(" page  "@),
        key_name(" Enter "@),
        raw(" details  "@),
        key_name(" +/- "@),
        raw(" chart height "@ + decimal(chart_height) + "  listening on "@ + listen),
    ]
}

/// The line at the bottom of the screen.
pub fn footer_line(chart_height: u16, listen: &str) -> (line: Vec<Span>)
    ensures
        line_view(line@) == footer_view(chart_height as nat, listen@),
{
    let mut setting: String = " chart height ".to_owned();
    setting.append(decimal_text(chart_height as u64).as_str());
    setting.append("  listening on ");
    setting.append(listen);
    let line: Vec<Span> = vec![
        key_span(" q "),
        raw_span(" quit  ".to_owned()),
        key_span(" Tab "),
        raw_span(" focus  ".to_owned()),
        key_span(" PgUp/PgDn "),
        raw_span(" page  ".to_owned()),
        key_span(" Enter "),
        raw_span(" details  ".to_owned()),
        key_span(" +/- "),
        raw_span(setting),
    ];
    assert(line_view(line@) =~= footer_view(chart_height as nat, listen@));
    line
}

/// The lines at the top of the screen.
pub open spec fn header_view(received: nat, metrics: nat, uptime: nat) -> Seq<Seq<SpanView>> {
    seq![
        seq![
            SpanView { text: "spinal-tap"@, style: name_look() },
            raw("  dogstatsd dashboard"@),
        ],
        seq![
            raw(
                decimal(received) + " samples  "@ + decimal(metrics) + " metrics  uptime "@
                    + decimal(uptime) + "s"@,
            ),
        ],
    ]
}

/// The lines at the top of the screen: how many samples were received, how many series there are,
/// and for how many seconds the program has run.
pub fn header_lines(received: u64, metrics: usize, uptime: u64) -> (lines: Vec<Vec<Span>>)
    ensures
        lines_view(lines@) == header_view(received as nat, metrics as nat, uptime as nat),
{
    let mut stats: String = decimal_text(received);
    stats.append(" samples  ");
    stats.append(decimal_text(metrics as u64).as_str());
    stats.append(" metrics  uptime ");
    stats.append(decimal_text(uptime).as_str());
    stats.append("s");
    let name: Span = Span {
        text: "spinal-tap".to_owned(),
        style: TextStyle { fg: Some(Color::Cyan), bold: true, ..plain_style() },
    };
    let first: Vec<Span> = vec![name, raw_span("  dogstatsd dashboard".to_owned())];
    let second: Vec<Span> = vec![raw_span(stats)];
    let lines: Vec<Vec<Span>> = vec![first, second];
    assert(lines_view(lines@) =~~= header_view(received as nat, metrics as nat, uptime as nat));
    lines
}

/// The title of a pane: a star where the keys act on it, which series is selected, and which are
/// shown, counted from one.
pub open spec fn pane_heading(
    label: Seq<char>,
    focused: bool,
    start: nat,
    end: nat,
    total: nat,
    selected: nat,
) -> Seq<char> {
    let marker = if focused {
        "*"@
    } else {
        " "@
    };
    if total == 0 {
        " "@ + marker + " "@ + label + " 0/0 "@
    } else {
        " "@ + marker + " "@ + label + " selected "@ + decimal(selected + 1) + "/"@ + decimal(total)
            + " visible "@ + decimal(start + 1) + "-"@ + decimal(end) + " "@
    }
}

/// The title of a pane.
pub fn pane_title(
    label: &str,
    focused: bool,
    start: usize,
    end: usize,
    total: usize,
    selected: usize,
) -> (title: String)
    requires
        total > 0 ==> start < usize::MAX && selected < usize::MAX,
    ensures
        title@ == pane_heading(
            label@,
            focused,
            start as nat,
            end as nat,
            total as nat,
            selected as nat,
        ),
{
    let mut title: String = " ".to_owned();
    if focused {
        title.append("*");
    } else {
        title.append(" ");
    }
    title.append(" ");
    title.append(label);
    if total == 0 {
        title.append(" 0/0 ");
    } else {
        title.append(" selected ");
        title.append(decimal_text((selected + 1) as u64).as_str());
        title.append("/");
        title.append(decimal_text(total as u64).as_str());
        title.append(" visible ");
        title.append(decimal_text((start + 1) as u64).as_str());
        title.append("-");
        title.append(decimal_text(end as u64).as_str());
        title.append(" ");
    }
    title
}

/// The footer names the keys, each followed by what it does, and ends with the height of the charts
/// and the address that is listened on.
pub proof fn footer_names_keys_height_and_address(chart_height: nat, listen: Seq<char>)
    ensures
        footer_view(chart_height, listen).len() == 10,
        forall|i: int|
            0 <= i < 10 ==> (#[trigger] footer_view(chart_height, listen)[i]).style == if i % 2
                == 0 {
                key_look()
            } else {
                plain_look()
            },
        footer_view(chart_height, listen)[0].text == " q "@,
        footer_view(chart_height, listen)[1].text == " quit  "@,
        footer_view(chart_height, listen)[2].text == " Tab "@,
        footer_view(chart_height, listen)[3].text == " focus  "@,
        footer_view(chart_height, listen)[4].text == " PgUp/PgDn "@,
        footer_view(chart_height, listen)[5].text == " page  "@,
        footer_view(chart_height, listen)[6].text == " Enter "@,
        footer_view(chart_height, listen)[7].text == " details  "@,
        footer_view(chart_height, listen)[8].text == " +/- "@,
        footer_view(chart_height, listen)[9].text == " chart height "@ + decimal(chart_height)
            + "  listening on "@ + listen,
{
}

/// The header bears the name of the program and tells the samples received, the series and the
/// seconds that the program has run.
pub proof fn header_tells_samples_metrics_and_uptime(received: nat, metrics: nat, uptime: nat)
    ensures
        header_view(received, metrics, uptime).len() == 2,
        header_view(received, metrics, uptime)[0].len() == 2,
        header_view(received, metrics, uptime)[0][0].text == "spinal-tap"@,
        header_view(received, metrics, uptime)[0][0].style == (TextStyle {
            fg: Some(Color::Cyan),
            bg: None,
            bold: true,
            dim: false,
        }),
        header_view(received, metrics, uptime)[0][1].text == "  dogstatsd dashboard"@,
        header_view(received, metrics, uptime)[0][1].style == plain_look(),
        header_view(received, metrics, uptime)[1].len() == 1,
        header_view(received, metrics, uptime)[1][0].style == plain_look(),
        header_view(received, metrics, uptime)[1][0].text == decimal(received) + " samples  "@
            + decimal(metrics) + " metrics  uptime "@ + decimal(uptime) + "s"@,
{
}

/// The title of a pane bears a star if and only if the keys act on it, and its label. Of an empty
/// list it says so; else it tells, counted from one, the row selected, the rows there are, and the
/// first and the last row shown.
pub proof fn pane_titles_tell_where_the_pane_stands(
    label: Seq<char>,
    start: nat,
    end: nat,
    total: nat,
    selected: nat,
)
    ensures
        pane_heading(label, true, start, end, 0, selected) == " "@ + "*"@ + " "@ + label
            + " 0/0 "@,
        pane_heading(label, false, start, end, 0, selected) == " "@ + " "@ + " "@ + label
            + " 0/0 "@,
        total > 0 ==> pane_heading(label, true, start, end, total, selected) == " "@ + "*"@ + " "@
            + label + " selected "@ + decimal((selected + 1) as nat) + "/"@ + decimal(total)
            + " visible "@ + decimal((start + 1) as nat) + "-"@ + decimal(end) + " "@,
        total > 0 ==> pane_heading(label, false, start, end, total, selected) == " "@ + " "@ + " "@
            + label + " selected "@ + decimal((selected + 1) as nat) + "/"@ + decimal(total)
            + " visible "@ + decimal((start + 1) as nat) + "-"@ + decimal(end) + " "@,
{
}

/// What is selected is yellow: bold on dark gray where the keys act on it, and dim where they do
/// not. Plain text has no style, the names of keys are black on gray, and labels yellow and bold.
pub proof fn looks_have_their_colors()
    ensures
        selected_look(true) == (TextStyle {
            fg: Some(Color::Yellow),
            bg: Some(Color::DarkGray),
            bold: true,
            dim: false,
        }),
        selected_look(false) == (TextStyle {
            fg: Some(Color::Yellow),
            bg: None,
            bold: false,
            dim: true,
        }),
        plain_look() == (TextStyle { fg: None, bg: None, bold: false, dim: false }),
        key_look() == (TextStyle {
            fg: Some(Color::Black),
            bg: Some(Color::Gray),
            bold: false,
            dim: false,
        }),
        label_look() == (TextStyle { fg: Some(Color::Yellow), bg: None, bold: true, dim: false }),
{
}

/// What lines show is what their texts hold, in their styles.
pub proof fn lines_show_their_texts(lines: Seq<Vec<Span>>)
    ensures
        lines_view(lines).len() == lines.len(),
        forall|i: int|
            0 <= i < lines.len() ==> (#[trigger] lines_view(lines)[i]).len() == lines[i]@.len(),
        forall|i: int, j: int|
            0 <= i < lines.len() && 0 <= j < lines[i]@.len() ==> (#[trigger] lines_view(
                lines,
            )[i][j]).text == lines[i]@[j].text@ && lines_view(lines)[i][j].style
                == lines[i]@[j].style,
{
}

} // verus!
