//! The part of a list that a pane shows.
use vstd::prelude::*;

verus! {

/// Where a pane stands in its list: the first row shown, the selected row, and how many rows it
/// shows at a time.
pub struct PaneView {
    pub scroll: int,
    pub selected: int,
    pub page: int,
}

/// The number of rows that a pane shows at a time: at least one.
pub open spec fn shown_rows(page: int) -> int {
    if page < 1 {
        1
    } else {
        page
    }
}

/// The last row of a list of `count` rows; the first where there is none.
pub open spec fn last_row(count: int) -> int {
    if count < 1 {
        0
    } else {
        count - 1
    }
}

/// The smaller of two numbers.
pub open spec fn smaller(a: int, b: int) -> int {
    if a < b {
        a
    } else {
        b
    }
}

/// The pane moved as little as it takes to show the selected row of a list of `count` rows, and to
/// leave no room unused at the end of the list.
pub open spec fn synced(pane: PaneView, count: int) -> PaneView {
    if count == 0 {
        PaneView { scroll: 0, selected: 0, page: pane.page }
    } else {
        let rows = shown_rows(pane.page);
        let selected = smaller(pane.selected, count - 1);
        let scroll = if selected < pane.scroll {
            selected
        } else if selected >= pane.scroll + rows {
            selected + 1 - rows
        } else {
            pane.scroll
        };
        let furthest = if count < rows {
            0
        } else {
            count - rows
        };
        PaneView { scroll: smaller(scroll, furthest), selected, page: pane.page }
    }
}

/// Whether a pane shows the selected row of a list of `count` rows and leaves no room unused.
pub open spec fn in_view(pane: PaneView, count: int) -> bool {
    if count == 0 {
        pane.scroll == 0 && pane.selected == 0
    } else {
        &&& 0 <= pane.selected < count
        &&& 0 <= pane.scroll <= pane.selected < pane.scroll + shown_rows(pane.page)
        &&& pane.scroll == 0 || pane.scroll + shown_rows(pane.page) <= count
    }
}

/// Moves a pane so that it shows the selected row.
pub fn sync_viewport(scroll: &mut usize, selected: &mut usize, page: usize, count: usize)
    ensures
        ({
            let before = PaneView {
                scroll: *old(scroll) as int,
                selected: *old(selected) as int,
                page: page as int,
            };
            let after = PaneView {
                scroll: *final(scroll) as int,
                selected: *final(selected) as int,
                page: page as int,
            };
            after == synced(before, count as int)
        }),
{
    if count == 0 {
        *scroll = 0;
        *selected = 0;
        return ;
    }
    let rows: usize = page.max(1);
    *selected = (*selected).min(count - 1);
    if *selected < *scroll {
        *scroll = *selected;
    } else if *selected >= (*scroll).saturating_add(rows) {
        *scroll = (*selected).saturating_add(1).saturating_sub(rows);
    }
    *scroll = (*scroll).min(count.saturating_sub(rows));
}

/// After a pane was moved it shows the selected row, and leaves no room unused that it could fill.
pub proof fn synced_pane_shows_the_selection(pane: PaneView, count: int)
    requires
        0 <= pane.scroll,
        0 <= pane.selected,
        0 <= count,
    ensures
        in_view(synced(pane, count), count),
{
}

/// A pane that already shows the selected row and leaves no room unused stays where it is; so
/// moving it a second time does nothing.
pub proof fn synced_pane_stays(pane: PaneView, count: int)
    requires
        0 <= pane.scroll,
        0 <= pane.selected,
        0 <= count,
    ensures
        in_view(pane, count) ==> synced(pane, count) == pane,
        synced(synced(pane, count), count) == synced(pane, count),
{
}

/// A row that the list has stays selected.
pub proof fn selection_within_the_list_is_kept(pane: PaneView, count: int)
    requires
        0 <= pane.selected < count,
    ensures
        synced(pane, count).selected == pane.selected,
{
}

/// How far two rows are from each other.
pub open spec fn distance(a: int, b: int) -> int {
    if a < b {
        b - a
    } else {
        a - b
    }
}

/// A pane is moved no further than it has to: of all places at which it shows the selected row and
/// leaves no room unused, none is nearer to where it was than the one it is moved to.
pub proof fn pane_is_moved_no_further_than_needed(pane: PaneView, count: int, scroll: int)
    requires
        0 <= pane.scroll,
        0 <= pane.selected,
        0 <= count,
        in_view(PaneView { scroll, ..synced(pane, count) }, count),
    ensures
        distance(synced(pane, count).scroll, pane.scroll) <= distance(scroll, pane.scroll),
{
}

/// A pane that was moved shows as many rows as before. With no rows in the list it stands at the
/// start; else it selects the row it had selected, or the last where the list has not so many, and
/// shows it: the first row shown does not come behind it, it is one of as many rows as the pane
/// shows, at least one, and rows at the end of the list are shown before any room is left unused.
pub proof fn moved_pane_shows_its_row(pane: PaneView, count: int)
    requires
        0 <= pane.scroll,
        0 <= pane.selected,
        0 <= count,
    ensures
        synced(pane, count).page == pane.page,
        count == 0 ==> synced(pane, count).scroll == 0 && synced(pane, count).selected == 0,
        count > 0 && pane.selected < count ==> synced(pane, count).selected == pane.selected,
        count > 0 && pane.selected >= count ==> synced(pane, count).selected == count - 1,
        count > 0 ==> 0 <= synced(pane, count).scroll <= synced(pane, count).selected,
        count > 0 && pane.page >= 1 ==> synced(pane, count).selected < synced(pane, count).scroll
            + pane.page,
        count > 0 && pane.page < 1 ==> synced(pane, count).selected == synced(pane, count).scroll,
        synced(pane, count).scroll > 0 && pane.page >= 1 ==> synced(pane, count).scroll + pane.page
            <= count,
{
}

/// A pane that shows its selected row, and leaves no room unused, does not move. One that does not
/// show it moves until the row is the first or the last shown, or the list ends.
pub proof fn pane_moves_only_to_show_its_row(pane: PaneView, count: int)
    requires
        0 <= pane.scroll,
        0 <= pane.selected < count,
        pane.page >= 1,
    ensures
        pane.scroll <= pane.selected < pane.scroll + pane.page && (pane.scroll == 0 || pane.scroll
            + pane.page <= count) ==> synced(pane, count).scroll == pane.scroll,
        pane.selected < pane.scroll && pane.selected + pane.page <= count ==> synced(
            pane,
            count,
        ).scroll == pane.selected,
        pane.selected < pane.scroll && pane.selected + pane.page > count && pane.page <= count
            ==> synced(pane, count).scroll == count - pane.page,
        pane.scroll + pane.page <= pane.selected ==> synced(pane, count).scroll == pane.selected + 1
            - pane.page,
        pane.page >= count ==> synced(pane, count).scroll == 0,
{
}

} // verus!
