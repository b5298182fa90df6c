//! Where things stand on the screen, over many sizes.

use wf::layout::{below_captions, centered_bounds, centered_rect, screen_areas, Area, Bound};

fn edge(start: u32, extent: u32, percent: u32) -> u32 {
    (start * 100 + extent * percent + 50) / 100
}

#[test]
fn screen_parts() {
    for (x, y) in [(0u16, 0u16), (3, 5)] {
        for height in 3u16..80 {
            for width in [0u16, 1, 7, 80, 200] {
                let all = Area { x, y, width, height };
                let parts = screen_areas(all);
                assert_eq!(parts.tabs, Area { x, y, width, height: 1 });
                assert_eq!(parts.panel, Area { x, y: y + 1, width, height: height - 3 });
                assert_eq!(parts.footer, Area { x, y: y + height - 2, width, height: 2 });
            }
        }
    }
}

#[test]
fn small_screens_hold_their_parts() {
    for height in 0u16..3 {
        let parts = screen_areas(Area { x: 2, y: 3, width: 10, height });
        let lines = parts.tabs.height;
        assert!(lines <= 1);
        assert_eq!(parts.tabs, Area { x: 2, y: 3, width: 10, height: lines });
        assert_eq!(parts.panel, Area { x: 2, y: 3 + lines, width: 10, height: 0 });
        assert_eq!(parts.footer, Area { x: 2, y: 3 + lines, width: 10, height: height - lines });
    }
}

#[test]
fn centered_parts() {
    for percent in (0u16..=100).step_by(5).chain([1, 33, 60, 70, 99]) {
        for extent in [0u16, 1, 2, 3, 5, 10, 17, 24, 25, 33, 50, 79, 80, 99, 101, 120, 255, 1000] {
            for start in [0u16, 1, 4] {
                let all = Area { x: start, y: start, width: extent, height: extent };
                let r = centered_rect(percent, percent, all);
                let side = ((100 - percent) / 2) as u32;
                let near = edge(start as u32, extent as u32, side);
                let far = edge(start as u32, extent as u32, side + percent as u32);
                assert_eq!(r.x as u32, near, "{percent} of {extent} at {start}");
                assert_eq!((r.x + r.width) as u32, far, "{percent} of {extent} at {start}");
                assert_eq!(r.y as u32, near);
                assert_eq!((r.y + r.height) as u32, far);
            }
        }
    }
}

#[test]
fn captions_take_lines() {
    let all = Area { x: 1, y: 2, width: 9, height: 5 };
    assert_eq!(
        below_captions(2, all),
        (Area { height: 2, ..all }, Area { y: 4, height: 3, ..all })
    );
    assert_eq!(below_captions(0, all), (Area { height: 0, ..all }, all));
    assert_eq!(below_captions(9, all), (all, Area { y: 7, height: 0, ..all }));
}

#[test]
fn centered_example() {
    let r = centered_rect(60, 70, Area { x: 0, y: 1, width: 100, height: 40 });
    assert_eq!(r, Area { x: 20, y: 7, width: 60, height: 28 });
}

#[test]
fn centered_wishes() {
    assert_eq!(
        centered_bounds(61),
        vec![Bound::Percentage(19), Bound::Percentage(61), Bound::Percentage(19)]
    );
}
