//! Where things stand on the screen.
use vstd::prelude::*;

verus! {

/// A rectangle of the screen.
#[derive(Debug, Clone, Copy, Eq, PartialEq, Structural)]
pub struct Area {
    pub x: u16,
    pub y: u16,
    pub width: u16,
    pub height: u16,
}

/// The parts of the screen.
#[derive(Debug, Clone, Copy, Eq, PartialEq, Structural)]
pub struct Regions {
    pub header: Area,
    pub numeric: Area,
    pub charts: Area,
    pub footer: Area,
}

impl Area {
    /// Whether the ends of the rectangle can be counted.
    pub open spec fn valid(self) -> bool {
        &&& self.x + self.width <= u16::MAX
        &&& self.y + self.height <= u16::MAX
    }

    /// Whether the rectangle lies within another.
    pub open spec fn within(self, outer: Area) -> bool {
        &&& outer.x <= self.x && self.x + self.width <= outer.x + outer.width
        &&& outer.y <= self.y && self.y + self.height <= outer.y + outer.height
    }

    /// Whether the rectangle holds a cell of the screen.
    pub open spec fn holds(self, x: int, y: int) -> bool {
        &&& self.x <= x < self.x + self.width
        &&& self.y <= y < self.y + self.height
    }
}

/// The rows of a rectangle from `from` on, `count` of them.
pub open spec fn rows_of(area: Area, from: int, count: int) -> Area {
    Area { x: area.x, y: (area.y + from) as u16, width: area.width, height: count as u16 }
}

/// The columns of a rectangle from `from` on, `count` of them.
pub open spec fn columns_of(area: Area, from: int, count: int) -> Area {
    Area { x: (area.x + from) as u16, y: area.y, width: count as u16, height: area.height }
}

/// `ratatui::layout::Rect::layout` with a vertical `Layout` of a `Length`, a `Fill` and a `Length`:
/// three rectangles, each within the given one and as wide as it. Where both lengths fit, the first
/// rectangle has the one, the last the other, and the middle one the rows between them. Where they
/// do not fit, the middle one has no rows, and the first and the last, none higher than its length,
/// follow one another and have all of them; how they share them is not said.
#[verifier::external_body]
fn split_rows(area: Area, top: u16, fill: u16, bottom: u16) -> (rows: (Area, Area, Area))
    requires
        area.valid(),
    ensures
        rows.0.within(area) && rows.0.x == area.x && rows.0.width == area.width,
        rows.1.within(area) && rows.1.x == area.x && rows.1.width == area.width,
        rows.2.within(area) && rows.2.x == area.x && rows.2.width == area.width,
        top + bottom <= area.height ==> {
            &&& rows.0 == rows_of(area, 0, top as int)
            &&& rows.1 == rows_of(area, top as int, area.height - top - bottom)
            &&& rows.2 == rows_of(area, area.height - bottom, bottom as int)
        },
        top + bottom > area.height ==> {
            &&& rows.0.y == area.y && rows.0.height <= top
            &&& rows.1.y == area.y + rows.0.height && rows.1.height == 0
            &&& rows.2.y == rows.1.y && rows.2.height <= bottom
            &&& rows.0.height + rows.2.height == area.height
        },
{
    let Area { x, y, width, height } = area;
    let layout = ratatui::layout::Layout::vertical([
        ratatui::layout::Constraint::Length(top),
        ratatui::layout::Constraint::Fill(fill),
        ratatui::layout::Constraint::Length(bottom),
    ]);
    let rects: [ratatui::layout::Rect; 3] =
        ratatui::layout::Rect { x, y, width, height }.layout(&layout);
    let [first, middle, last] =
        rects.map(|r| Area { x: r.x, y: r.y, width: r.width, height: r.height });
    (first, middle, last)
}

/// `ratatui::layout::Rect::layout` with a horizontal `Layout` of two `Percentage`s that make up the
/// whole: two rectangles as high as the given one, the first with its share of the columns, rounded
/// to the nearest number and up where there are two, and the second with the rest.
#[verifier::external_body]
fn split_columns(area: Area, left: u16, right: u16) -> (columns: (Area, Area))
    requires
        area.valid(),
        left + right == 100,
    ensures
        columns.0 == columns_of(area, 0, (left * area.width + 50) / 100),
        columns.1 == columns_of(
            area,
            (left * area.width + 50) / 100,
            area.width - (left * area.width + 50) / 100,
        ),
{
    let Area { x, y, width, height } = area;
    let layout = ratatui::layout::Layout::horizontal([
        ratatui::layout::Constraint::Percentage(left),
        ratatui::layout::Constraint::Percentage(right),
    ]);
    let rects: [ratatui::layout::Rect; 2] =
        ratatui::layout::Rect { x, y, width, height }.layout(&layout);
    let [first, last] = rects.map(|r| Area { x: r.x, y: r.y, width: r.width, height: r.height });
    (first, last)
}

/// The columns of a body of `width` columns that the numbers are given: 42 of 100.
pub open spec fn numeric_columns(width: int) -> int {
    (42 * width + 50) / 100
}

/// The parts of a screen of at least four rows.
pub open spec fn regions_of(area: Area) -> Regions {
    let body = rows_of(area, 3, area.height - 4);
    let columns = numeric_columns(area.width as int);
    Regions {
        header: rows_of(area, 0, 3),
        numeric: columns_of(body, 0, columns),
        charts: columns_of(body, columns, area.width - columns),
        footer: rows_of(area, area.height - 1, 1),
    }
}

/// Whether these can be the parts of a screen. On one of fewer than four rows the body has none, and
/// it is open how the header and the footer share them.
pub open spec fn are_regions_of(area: Area, regions: Regions) -> bool {
    &&& regions.header.within(area)
    &&& regions.numeric.within(area)
    &&& regions.charts.within(area)
    &&& regions.footer.within(area)
    &&& regions.header.x == area.x && regions.header.width == area.width
    &&& regions.footer.x == area.x && regions.footer.width == area.width
    &&& regions.numeric.x == area.x
    &&& regions.numeric.width == numeric_columns(area.width as int)
    &&& regions.charts.x == regions.numeric.x + regions.numeric.width
    &&& regions.charts.width == area.width - regions.numeric.width
    &&& regions.charts.y == regions.numeric.y
    &&& regions.charts.height == regions.numeric.height
    &&& area.height >= 4 ==> regions == regions_of(area)
    &&& area.height < 4 ==> {
        &&& regions.header.y == area.y && regions.header.height <= 3
        &&& regions.numeric.y == area.y + regions.header.height && regions.numeric.height == 0
        &&& regions.footer.y == regions.numeric.y && regions.footer.height <= 1
        &&& regions.header.height + regions.footer.height == area.height
    }
}

/// The parts of a screen: three rows for the header above, one for the footer below, and between
/// them the body, of which the numbers get the left part and the charts the right one.
pub fn screen_regions(area: Area) -> (regions: Regions)
    requires
        area.valid(),
    ensures
        are_regions_of(area, regions),
{
    let (header, body, footer) = split_rows(area, 3, 1, 1);
    let (numeric, charts) = split_columns(body, 42, 58);
    Regions { header, numeric, charts, footer }
}

/// The rows of a screen of `height` rows that the details take up: a third, but at least eight, as
/// far as there are so many.
pub open spec fn details_rows(height: int) -> int {
    if height < 8 {
        height
    } else if height < 24 {
        8
    } else {
        height / 3
    }
}

/// The rows at the bottom of the screen that the details take up.
pub fn bottom_third(area: Area) -> (bottom: Area)
    requires
        area.y + area.height <= u16::MAX,
    ensures
        bottom == rows_of(
            area,
            area.height - details_rows(area.height as int),
            details_rows(area.height as int),
        ),
{
    let height: u16 = (area.height / 3).max(8).min(area.height);
    Area {
        x: area.x,
        y: area.y + area.height.saturating_sub(height),
        width: area.width,
        height,
    }
}

/// The place of the chart with this index: as many rows as a chart has, or as are left; none where
/// it would begin below the rectangle.
pub open spec fn chart_place(area: Area, index: int, chart_height: int) -> Option<Area> {
    let offset = index * chart_height;
    if index <= u16::MAX && offset < area.height {
        Some(
            rows_of(
                area,
                offset,
                if chart_height < area.height - offset {
                    chart_height
                } else {
                    area.height - offset
                },
            ),
        )
    } else {
        None
    }
}

/// The place of the chart with this index; none where it would begin below the rectangle.
pub fn chart_area_at(area: Area, index: usize, chart_height: u16) -> (place: Option<Area>)
    requires
        area.y + area.height <= u16::MAX,
    ensures
        place == chart_place(area, index as int, chart_height as int),
{
    if index > u16::MAX as usize {
        return None;
    }
    let offset: u16 = match (index as u16).checked_mul(chart_height) {
        Some(offset) => offset,
        None => {
            return None;
        },
    };
    if offset >= area.height {
        return None;
    }
    Some(
        Area {
            x: area.x,
            y: area.y + offset,
            width: area.width,
            height: chart_height.min(area.height - offset),
        },
    )
}

/// Every cell of a screen is in one of its parts, and in one only.
pub proof fn regions_tile_the_screen(area: Area, regions: Regions, x: int, y: int)
    requires
        area.valid(),
        are_regions_of(area, regions),
    ensures
        area.holds(x, y) <==> regions.header.holds(x, y) || regions.numeric.holds(x, y)
            || regions.charts.holds(x, y) || regions.footer.holds(x, y),
        !(regions.header.holds(x, y) && regions.numeric.holds(x, y)),
        !(regions.header.holds(x, y) && regions.charts.holds(x, y)),
        !(regions.header.holds(x, y) && regions.footer.holds(x, y)),
        !(regions.numeric.holds(x, y) && regions.charts.holds(x, y)),
        !(regions.numeric.holds(x, y) && regions.footer.holds(x, y)),
        !(regions.charts.holds(x, y) && regions.footer.holds(x, y)),
{
}

/// The details stand within the screen and end with it, and they have at least eight rows where
/// the screen has so many.
pub proof fn details_end_with_the_screen(area: Area)
    requires
        area.y + area.height <= u16::MAX,
    ensures
        ({
            let rows = details_rows(area.height as int);
            let bottom = rows_of(area, area.height - rows, rows);
            &&& bottom.within(area)
            &&& bottom.y + bottom.height == area.y + area.height
            &&& bottom.height >= 8 || bottom.height == area.height
        }),
{
}

/// Charts stand within their rectangle, one below the other: none overlap.
pub proof fn charts_do_not_overlap(area: Area, first: int, second: int, chart_height: int)
    requires
        area.y + area.height <= u16::MAX,
        0 <= first < second,
        chart_height > 0,
    ensures
        chart_place(area, first, chart_height) matches Some(place) ==> place.within(area)
            && place.height > 0,
        (chart_place(area, first, chart_height) matches Some(upper) && chart_place(
            area,
            second,
            chart_height,
        ) matches Some(lower) && upper.y + upper.height <= lower.y) || chart_place(
            area,
            second,
            chart_height,
        ) is None,
{
    assert(first * chart_height + chart_height <= second * chart_height) by (nonlinear_arith)
        requires
            first < second,
            chart_height > 0,
    ;
    assert(first * chart_height >= 0) by (nonlinear_arith)
        requires
            first >= 0,
            chart_height > 0,
    ;
}

/// On a screen of at least four rows the header has the three uppermost rows and the footer the
/// lowest. Between them the numbers stand on the left and the charts on the right: the numbers have
/// the number of columns nearest to 42 of 100, and the charts the others.
pub proof fn parts_of_the_screen_have_their_places(area: Area, regions: Regions)
    requires
        area.valid(),
        are_regions_of(area, regions),
        area.height >= 4,
    ensures
        regions.header == (Area { x: area.x, y: area.y, width: area.width, height: 3 }),
        regions.footer.x == area.x && regions.footer.width == area.width,
        regions.footer.height == 1 && regions.footer.y + 1 == area.y + area.height,
        regions.numeric.x == area.x && regions.numeric.y == area.y + 3,
        regions.charts.y == area.y + 3,
        regions.numeric.height + 4 == area.height && regions.charts.height + 4 == area.height,
        regions.charts.x == area.x + regions.numeric.width,
        regions.numeric.width + regions.charts.width == area.width,
        -50 < 100 * regions.numeric.width - 42 * area.width <= 50,
{
}

/// The details take up all rows of a screen of fewer than eight, eight rows of one of fewer than
/// twenty-four, and else a third, rounded down.
pub proof fn details_take_up_a_third(height: int)
    requires
        0 <= height,
    ensures
        height < 8 ==> details_rows(height) == height,
        8 <= height < 24 ==> details_rows(height) == 8,
        height >= 24 ==> 3 * details_rows(height) <= height < 3 * details_rows(height) + 3,
{
}

/// The rows of a rectangle from one on, so many of them, stand that far below its top, and are as
/// wide and as far to the right as it.
pub proof fn rows_of_a_rectangle_stand_in_it(area: Area, from: int, count: int)
    requires
        area.y + area.height <= u16::MAX,
        0 <= from,
        0 <= count,
        from + count <= area.height,
    ensures
        rows_of(area, from, count).x == area.x,
        rows_of(area, from, count).width == area.width,
        rows_of(area, from, count).y == area.y + from,
        rows_of(area, from, count).height == count,
{
}

/// Each chart begins as many rows below the top of its pane as the charts before it have, and has
/// its full height or what is left of the pane; one that would begin below the pane has no place.
pub proof fn charts_begin_below_those_before(area: Area, index: int, chart_height: int)
    requires
        area.y + area.height <= u16::MAX,
        0 <= index,
        0 <= chart_height,
    ensures
        index > u16::MAX || index * chart_height >= area.height ==> chart_place(
            area,
            index,
            chart_height,
        ) is None,
        index <= u16::MAX && index * chart_height < area.height ==> {
            &&& chart_place(area, index, chart_height) matches Some(place)
            &&& place.x == area.x && place.width == area.width
            &&& place.y == area.y + index * chart_height
            &&& (index + 1) * chart_height <= area.height ==> place.height == chart_height
            &&& (index + 1) * chart_height > area.height ==> place.y + place.height == area.y
                + area.height
        },
{
    assert(index * chart_height >= 0) by (nonlinear_arith)
        requires
            index >= 0,
            chart_height >= 0,
    ;
    assert((index + 1) * chart_height == index * chart_height + chart_height) by (nonlinear_arith);
}

/// On a screen of fewer than four rows the header, at most three rows of it, and below it the
/// footer, at most one, have all of them, and neither numbers nor charts have any.
pub proof fn small_screens_have_no_body(area: Area, regions: Regions)
    requires
        area.valid(),
        are_regions_of(area, regions),
        area.height < 4,
    ensures
        regions.header.x == area.x && regions.header.width == area.width,
        regions.header.y == area.y && regions.header.height <= 3,
        regions.footer.x == area.x && regions.footer.width == area.width,
        regions.footer.y == area.y + regions.header.height && regions.footer.height <= 1,
        regions.header.height + regions.footer.height == area.height,
        regions.numeric.height == 0 && regions.charts.height == 0,
        regions.numeric.y == regions.footer.y && regions.charts.y == regions.footer.y,
        regions.numeric.x == area.x,
        regions.charts.x == area.x + regions.numeric.width,
        regions.numeric.width + regions.charts.width == area.width,
        -50 < 100 * regions.numeric.width - 42 * area.width <= 50,
{
}

} // verus!
