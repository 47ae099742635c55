use ratatui::layout::{Constraint, Layout, Rect};
use spinal_tap::geometry::{bottom_third, chart_area_at, screen_regions, Area};

fn area(x: u16, y: u16, width: u16, height: u16) -> Area {
    Area { x, y, width, height }
}

fn holds(outer: Area, inner: Area) -> bool {
    outer.x <= inner.x
        && inner.x + inner.width <= outer.x + outer.width
        && outer.y <= inner.y
        && inner.y + inner.height <= outer.y + outer.height
}

#[test]
fn an_ordinary_screen_is_divided() {
    let regions = screen_regions(area(0, 0, 100, 40));
    assert_eq!(regions.header, area(0, 0, 100, 3));
    assert_eq!(regions.numeric, area(0, 3, 42, 36));
    assert_eq!(regions.charts, area(42, 3, 58, 36));
    assert_eq!(regions.footer, area(0, 39, 100, 1));
}

#[test]
fn columns_are_shared_to_the_nearest() {
    for width in 0..700_u16 {
        let regions = screen_regions(area(3, 0, width, 10));
        let columns = (42 * u32::from(width) + 50) / 100;
        assert_eq!(u32::from(regions.numeric.width), columns, "{width}");
        assert_eq!(regions.numeric.x, 3);
        assert_eq!(regions.charts.x, 3 + regions.numeric.width);
        assert_eq!(regions.charts.width, width - regions.numeric.width);
    }
    for width in [9_999_u16, 32_767, 40_025, 65_000, 65_535] {
        let regions = screen_regions(area(0, 0, width, 10));
        let columns = (42 * u32::from(width) + 50) / 100;
        assert_eq!(u32::from(regions.numeric.width), columns, "{width}");
    }
}

#[test]
fn rows_are_given_to_header_body_and_footer() {
    for height in 4..400_u16 {
        let regions = screen_regions(area(1, 7, 80, height));
        assert_eq!(regions.header, area(1, 7, 80, 3));
        assert_eq!(regions.numeric.y, 10);
        assert_eq!(regions.numeric.height, height - 4);
        assert_eq!(regions.footer, area(1, 7 + height - 1, 80, 1));
    }
    let regions = screen_regions(area(0, 35, 80, 65_500));
    assert_eq!(regions.footer, area(0, 65_534, 80, 1));
}

#[test]
fn regions_stay_on_a_small_screen() {
    for height in 0..6 {
        for width in 0..6 {
            let screen = area(5, 9, width, height);
            let regions = screen_regions(screen);
            assert!(holds(screen, regions.header));
            assert!(holds(screen, regions.numeric));
            assert!(holds(screen, regions.charts));
            assert!(holds(screen, regions.footer));
            if height < 4 {
                assert_eq!(regions.header.y, 9);
                assert!(regions.header.height <= 3);
                assert_eq!(regions.numeric.height, 0);
                assert_eq!(regions.charts.height, 0);
                assert_eq!(regions.footer.y, 9 + regions.header.height);
                assert!(regions.footer.height <= 1);
                assert_eq!(regions.header.height + regions.footer.height, height);
            }
        }
    }
}

#[test]
fn each_cell_is_in_one_region() {
    for height in 0..13 {
        let regions = screen_regions(area(2, 1, 31, height));
        let parts = [regions.header, regions.numeric, regions.charts, regions.footer];
        for x in 2..33 {
            for y in 1..1 + height {
                let count = parts
                    .iter()
                    .filter(|part| holds(**part, area(x, y, 1, 1)))
                    .count();
                assert_eq!(count, 1);
            }
        }
    }
}

#[test]
fn details_take_the_lowest_third() {
    assert_eq!(bottom_third(area(0, 0, 80, 60)), area(0, 40, 80, 20));
    assert_eq!(bottom_third(area(0, 0, 80, 24)), area(0, 16, 80, 8));
    assert_eq!(bottom_third(area(4, 5, 80, 20)), area(4, 17, 80, 8));
    assert_eq!(bottom_third(area(0, 0, 80, 8)), area(0, 0, 80, 8));
    assert_eq!(bottom_third(area(0, 0, 80, 3)), area(0, 0, 80, 3));
    assert_eq!(bottom_third(area(0, 2, 80, 0)), area(0, 2, 80, 0));
    assert_eq!(bottom_third(area(65_535, 0, 65_535, 30)), area(65_535, 20, 65_535, 10));
}

#[test]
fn charts_stand_below_each_other() {
    let pane = area(40, 3, 60, 20);
    assert_eq!(chart_area_at(pane, 0, 9), Some(area(40, 3, 60, 9)));
    assert_eq!(chart_area_at(pane, 1, 9), Some(area(40, 12, 60, 9)));
    assert_eq!(chart_area_at(pane, 2, 9), Some(area(40, 21, 60, 2)));
    assert_eq!(chart_area_at(pane, 3, 9), None);
    assert_eq!(chart_area_at(pane, 8000, 9), None);
    assert_eq!(chart_area_at(pane, 70_000, 9), None);
    assert_eq!(chart_area_at(area(0, 0, 10, 0), 0, 9), None);
    assert_eq!(chart_area_at(pane, 65_535, 0), Some(area(40, 3, 60, 0)));
    assert_eq!(chart_area_at(pane, 65_536, 0), None);
    let wide = area(65_535, 0, 65_535, 12);
    assert_eq!(chart_area_at(wide, 1, 9), Some(area(65_535, 9, 65_535, 3)));
}

#[test]
fn every_share_is_rounded_to_the_nearest() {
    for left in 0..=100_u16 {
        for width in [0_u16, 1, 2, 3, 7, 10, 25, 50, 75, 99, 100, 150, 211, 1000, 65_535] {
            let rect = Rect { x: 0, y: 5, width, height: 3 };
            let layout = Layout::horizontal([
                Constraint::Percentage(left),
                Constraint::Percentage(100 - left),
            ]);
            let [first, second]: [Rect; 2] = rect.layout(&layout);
            let columns = (u32::from(left) * u32::from(width) + 50) / 100;
            let columns = u16::try_from(columns).unwrap();
            assert_eq!(first, Rect { x: 0, y: 5, width: columns, height: 3 });
            let rest = Rect { x: columns, y: 5, width: width - columns, height: 3 };
            assert_eq!(second, rest, "{left} of {width}");
        }
    }
}

#[test]
fn lengths_are_given_before_the_rest_is_filled() {
    for top in 0..12_u16 {
        for bottom in 0..12_u16 {
            for height in [0_u16, 1, 5, 11, 12, 22, 23, 40, 65_530] {
                for fill in [0_u16, 1, 3] {
                    let rect = Rect { x: 2, y: 5, width: 9, height };
                    let layout = Layout::vertical([
                        Constraint::Length(top),
                        Constraint::Fill(fill),
                        Constraint::Length(bottom),
                    ]);
                    let [first, middle, last]: [Rect; 3] = rect.layout(&layout);
                    for part in [first, middle, last] {
                        assert_eq!((part.x, part.width), (2, 9));
                        assert!(part.y >= 5 && part.y + part.height <= 5 + height);
                    }
                    if top + bottom <= height {
                        assert_eq!((first.y, first.height), (5, top));
                        assert_eq!((middle.y, middle.height), (5 + top, height - top - bottom));
                        assert_eq!((last.y, last.height), (5 + height - bottom, bottom));
                    } else {
                        assert_eq!(first.y, 5);
                        assert!(first.height <= top);
                        assert_eq!((middle.y, middle.height), (5 + first.height, 0));
                        assert_eq!(last.y, middle.y);
                        assert!(last.height <= bottom);
                        assert_eq!(first.height + last.height, height);
                    }
                }
            }
        }
    }
}

#[test]
fn rows_that_do_not_suffice_go_to_both_ends() {
    for round in 0..40_u16 {
        for height in 0..4_u16 {
            for y in [0_u16, 1, 17, 65_000] {
                let rect = Rect { x: round, y, width: 30, height };
                let layout = Layout::vertical([
                    Constraint::Length(3),
                    Constraint::Fill(1),
                    Constraint::Length(1),
                ]);
                let [first, middle, last]: [Rect; 3] = rect.layout(&layout);
                assert_eq!((first.y, middle.height), (y, 0));
                assert!(first.height <= 3 && last.height <= 1);
                assert_eq!((middle.y, last.y), (y + first.height, y + first.height));
                assert_eq!(first.height + last.height, height);
            }
        }
    }
    for (top, bottom, height) in [(65_535_u16, 65_535_u16, 100_u16), (65_535, 1, 65_535), (9, 65_535, 4)] {
        let rect = Rect { x: 0, y: 0, width: 1, height };
        let layout = Layout::vertical([
            Constraint::Length(top),
            Constraint::Fill(7),
            Constraint::Length(bottom),
        ]);
        let [first, middle, last]: [Rect; 3] = rect.layout(&layout);
        assert_eq!((first.y, middle.height), (0, 0));
        assert!(first.height <= top && last.height <= bottom);
        assert_eq!((middle.y, last.y), (first.height, first.height));
        assert_eq!(first.height + last.height, height);
    }
}
