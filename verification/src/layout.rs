//! Where things stand on the screen.

use vstd::prelude::*;

verus! {

/// A rectangle of the screen.
#[derive(Debug, Clone, Copy, PartialEq, Eq, Structural)]
pub struct Area {
    pub x: u16,
    pub y: u16,
    pub width: u16,
    pub height: u16,
}

impl Area {
    /// Whether the far edges have coordinates.
    pub open spec fn fits(self) -> bool {
        self.x + self.width <= u16::MAX && self.y + self.height <= u16::MAX
    }

    /// Whether the rectangle lies within another.
    pub open spec fn within(self, outer: Area) -> bool {
        &&& outer.x <= self.x
        &&& outer.y <= self.y
        &&& self.x + self.width <= outer.x + outer.width
        &&& self.y + self.height <= outer.y + outer.height
    }

    /// Where the rectangle begins, downwards or to the right.
    pub open spec fn start(self, down: bool) -> int {
        if down {
            self.y as int
        } else {
            self.x as int
        }
    }

    /// How far the rectangle reaches, downwards or to the right.
    pub open spec fn extent(self, down: bool) -> int {
        if down {
            self.height as int
        } else {
            self.width as int
        }
    }
}

/// What a part of the screen asks for.
#[derive(Debug, Clone, Copy, PartialEq, Eq, Structural)]
pub enum Bound {
    /// So many cells.
    Length(u16),
    /// So many cells or more.
    Min(u16),
    /// So many hundredths of the whole.
    Percentage(u16),
}

/// The edge after so many hundredths of an extent, to the nearest cell.
pub open spec fn edge(start: int, extent: int, percent: int) -> int {
    (start * 100 + extent * percent + 50) / 100
}

/// `ratatui::layout::Layout::split`, downwards or to the right: as many parts
/// as are asked for, each across the whole of the area and within it. Where
/// lengths on both sides of a part without a least size find room, they get
/// their cells and that part the rest; where two equal percentages on both
/// sides of a third find room, the third lies between their edges. What
/// becomes of other wishes is left to the solver behind it and not said here. So
/// is how two lengths share an area that is too small for both: each split of it
/// between them is as good, and which one the solver comes upon depends on the
/// order in which it walks hash maps. What holds of each is said: they fill the
/// area, none is longer than it asks, and what is between them is empty.
#[verifier::external_body]
fn split(down: bool, bounds: &Vec<Bound>, area: Area) -> (r: Vec<Area>)
    requires
        area.fits(),
    ensures
        r@.len() == bounds@.len(),
        forall|i: int|
            0 <= i < r@.len() ==> (#[trigger] r@[i]).within(area) && r@[i].start(!down)
                == area.start(!down) && r@[i].extent(!down) == area.extent(!down),
        forall|a: u16, b: u16|
            bounds@ == #[trigger] seq![Bound::Length(a), Bound::Min(0), Bound::Length(b)] && a + b
                <= area.extent(down) ==> {
                &&& r@[0].start(down) == area.start(down)
                &&& r@[0].extent(down) == a
                &&& r@[1].start(down) == area.start(down) + a
                &&& r@[1].extent(down) == area.extent(down) - a - b
                &&& r@[2].start(down) == area.start(down) + area.extent(down) - b
                &&& r@[2].extent(down) == b
            },
        forall|a: u16, b: u16|
            bounds@ == #[trigger] seq![Bound::Length(a), Bound::Min(0), Bound::Length(b)] && a + b
                >= area.extent(down) ==> {
                &&& r@[0].start(down) == area.start(down)
                &&& r@[0].extent(down) <= a
                &&& r@[1].start(down) == area.start(down) + r@[0].extent(down)
                &&& r@[1].extent(down) == 0
                &&& r@[2].start(down) == area.start(down) + r@[0].extent(down)
                &&& r@[2].extent(down) == area.extent(down) - r@[0].extent(down)
                &&& r@[2].extent(down) <= b
            },
        forall|p: u16, q: u16|
            bounds@ == #[trigger] seq![
                Bound::Percentage(p),
                Bound::Percentage(q),
                Bound::Percentage(p),
            ] && p + q + p <= 100 ==> {
                &&& r@[1].start(down) == edge(area.start(down), area.extent(down), p as int)
                &&& r@[1].start(down) + r@[1].extent(down) == edge(
                    area.start(down),
                    area.extent(down),
                    p + q,
                )
            },
{
    let to = if down { ratatui::layout::Direction::Vertical } else { ratatui::layout::Direction::Horizontal };
    let wishes = bounds.iter().map(|b| match b {
        Bound::Length(n) => ratatui::layout::Constraint::Length(*n),
        Bound::Min(n) => ratatui::layout::Constraint::Min(*n),
        Bound::Percentage(n) => ratatui::layout::Constraint::Percentage(*n),
    });
    let whole = ratatui::layout::Rect::new(area.x, area.y, area.width, area.height);
    let parts = ratatui::layout::Layout::default().direction(to).constraints(wishes).split(whole);
    parts.iter().map(|r| Area { x: r.x, y: r.y, width: r.width, height: r.height }).collect()
}

/// The parts of the screen: tabs, panel, footer.
#[derive(Debug, Clone, Copy, PartialEq, Eq, Structural)]
pub struct ScreenAreas {
    pub tabs: Area,
    pub panel: Area,
    pub footer: Area,
}

/// The parts of a screen: one line of tabs at its top, two lines of footer at
/// its bottom, and the panel between them. On a screen of fewer lines there is no
/// panel, and the tabs and the footer share the lines that there are.
pub fn screen_areas(area: Area) -> (r: ScreenAreas)
    requires
        area.fits(),
    ensures
        r.tabs.within(area),
        r.panel.within(area),
        r.footer.within(area),
        area.height >= 3 ==> {
            &&& r.tabs == (Area { height: 1, ..area })
            &&& r.panel == (Area {
                y: (area.y + 1) as u16,
                height: (area.height - 3) as u16,
                ..area
            })
            &&& r.footer == (Area { y: (area.y + area.height - 2) as u16, height: 2, ..area })
        },
        area.height < 3 ==> {
            &&& r.tabs.height <= 1
            &&& r.tabs == (Area { height: r.tabs.height, ..area })
            &&& r.panel == (Area { y: r.footer.y, height: 0, ..area })
            &&& r.footer == (Area {
                y: (area.y + r.tabs.height) as u16,
                height: (area.height - r.tabs.height) as u16,
                ..area
            })
        },
{
    let bounds = vec![Bound::Length(1), Bound::Min(0), Bound::Length(2)];
    assert(bounds@ =~= seq![Bound::Length(1), Bound::Min(0), Bound::Length(2)]);
    let parts = split(true, &bounds, area);
    assert(parts@[0].within(area) && parts@[1].within(area) && parts@[2].within(area));
    ScreenAreas { tabs: parts[0], panel: parts[1], footer: parts[2] }
}

/// Where captions go, one a line from the top of an area as far as there is room,
/// and what is left below them.
pub fn below_captions(captions: usize, area: Area) -> (r: (Area, Area))
    requires
        area.fits(),
    ensures
        r.0 == (Area {
            height: if captions < area.height {
                captions as u16
            } else {
                area.height
            },
            ..area
        }),
        r.1 == (Area {
            y: (area.y + r.0.height) as u16,
            height: (area.height - r.0.height) as u16,
            ..area
        }),
{
    let rows: u16 = if captions < area.height as usize {
        captions as u16
    } else {
        area.height
    };
    (
        Area { x: area.x, y: area.y, width: area.width, height: rows },
        Area { x: area.x, y: area.y + rows, width: area.width, height: area.height - rows },
    )
}

/// What a part that takes so many hundredths asks for, with equal parts on both
/// sides of it.
pub fn centered_bounds(percent: u16) -> (r: Vec<Bound>)
    requires
        percent <= 100,
    ensures
        r@ == seq![
            Bound::Percentage(((100 - percent) / 2) as u16),
            Bound::Percentage(percent),
            Bound::Percentage(((100 - percent) / 2) as u16),
        ],
{
    let side = (100 - percent) / 2;
    let r = vec![Bound::Percentage(side), Bound::Percentage(percent), Bound::Percentage(side)];
    assert(r@ =~= seq![
        Bound::Percentage(((100 - percent) / 2) as u16),
        Bound::Percentage(percent),
        Bound::Percentage(((100 - percent) / 2) as u16),
    ]);
    r
}

/// The rectangle in the middle of an area that takes so many hundredths of its
/// width and of its height.
pub fn centered_rect(percent_x: u16, percent_y: u16, area: Area) -> (r: Area)
    requires
        percent_x <= 100,
        percent_y <= 100,
        area.fits(),
    ensures
        r.within(area),
        r.x == edge(area.x as int, area.width as int, (100 - percent_x) / 2),
        r.x + r.width == edge(
            area.x as int,
            area.width as int,
            (100 - percent_x) / 2 + percent_x,
        ),
        r.y == edge(area.y as int, area.height as int, (100 - percent_y) / 2),
        r.y + r.height == edge(
            area.y as int,
            area.height as int,
            (100 - percent_y) / 2 + percent_y,
        ),
{
    let down = split(true, &centered_bounds(percent_y), area);
    let row = down[1];
    assert(row.within(area));
    let across = split(false, &centered_bounds(percent_x), row);
    assert(across@[1].within(row));
    across[1]
}

} // verus!
