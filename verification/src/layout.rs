//! The areas that the panes of the screen are given.
use vstd::prelude::*;

use crate::geometry::{within_margins, Rect};

verus! {

/// How much of an area a part of it is given.
#[derive(Clone, Copy, Debug, PartialEq, Eq, Structural)]
pub enum Constraint {
    Length(u16),
    Min(u16),
    Percentage(u16),
}

/// The areas of the panes.
#[derive(Clone, Copy, Debug, PartialEq, Eq, Structural)]
pub struct PaneAreas {
    pub status: Rect,
    pub projects: Rect,
    pub threads: Rect,
    pub preview: Rect,
}

/// Whether an area ends within the range of coordinates.
pub open spec fn is_bounded(area: Rect) -> bool {
    area.x + area.width <= u16::MAX && area.y + area.height <= u16::MAX
}

/// Whether an area lies in another.
pub open spec fn is_within(part: Rect, area: Rect) -> bool {
    &&& area.x <= part.x
    &&& part.x + part.width <= area.x + area.width
    &&& area.y <= part.y
    &&& part.y + part.height <= area.y + area.height
}

/// The sum of the percentages among constraints.
pub open spec fn total_share(constraints: Seq<Constraint>) -> int
    decreases constraints.len(),
{
    if constraints.len() == 0 {
        0
    } else {
        total_share(constraints.drop_last()) + match constraints.last() {
            Constraint::Percentage(share) => share as int,
            _ => 0,
        }
    }
}

/// Whether constraints share out the whole of an area: up to three, either percentages that make up
/// the whole, or sizes in cells of which one can grow.
pub open spec fn shares_the_whole(constraints: Seq<Constraint>) -> bool {
    &&& 1 <= constraints.len() <= 3
    &&& {
        ||| total_share(constraints) == 100 && forall|k: int|
            0 <= k < constraints.len() ==> #[trigger] constraints[k] is Percentage
        ||| (forall|k: int|
            0 <= k < constraints.len() ==> !(#[trigger] constraints[k] is Percentage)) && exists|
            k: int,
        |
            0 <= k < constraints.len() && #[trigger] constraints[k] is Min
    }
}

/// Whether a part begins where another ends, below it or beside it.
pub open spec fn follows(part: Rect, before: Rect, vertical: bool) -> bool {
    if vertical {
        part.y == before.y + before.height
    } else {
        part.x == before.x + before.width
    }
}

/// Whether parts cover an area from its beginning to its end, below each other or beside each other.
pub open spec fn covers(parts: Seq<Rect>, area: Rect, vertical: bool) -> bool {
    &&& forall|k: int|
        0 < k < parts.len() ==> follows(#[trigger] parts[k], parts[k - 1], vertical)
    &&& vertical ==> parts[0].y == area.y && parts.last().y + parts.last().height == area.y
        + area.height
    &&& !vertical ==> parts[0].x == area.x && parts.last().x + parts.last().width == area.x
        + area.width
}

/// How long an area is along a division.
pub open spec fn extent(area: Rect, vertical: bool) -> int {
    if vertical {
        area.height as int
    } else {
        area.width as int
    }
}

/// How many cells constraints ask for.
pub open spec fn cells_wanted(constraints: Seq<Constraint>) -> int
    decreases constraints.len(),
{
    if constraints.len() == 0 {
        0
    } else {
        cells_wanted(constraints.drop_last()) + match constraints.last() {
            Constraint::Length(size) => size as int,
            Constraint::Min(size) => size as int,
            Constraint::Percentage(_) => 0,
        }
    }
}

/// Whether a length is a percentage of another one, to within a cell.
pub open spec fn is_share(length: int, percentage: int, whole: int) -> bool {
    percentage * whole - 100 <= 100 * length <= percentage * whole + 100
}

/// Whether a part is as long as its constraint says: where what is asked for fits, a fixed length is
/// kept; a percentage is rounded to cells at both ends. A part that can grow takes what is left.
pub open spec fn is_as_long_as(
    part: Rect,
    constraint: Constraint,
    area: Rect,
    vertical: bool,
    fits: bool,
) -> bool {
    match constraint {
        Constraint::Length(size) => fits ==> extent(part, vertical) == size,
        Constraint::Min(_) => true,
        Constraint::Percentage(share) => is_share(
            extent(part, vertical),
            share as int,
            extent(area, vertical),
        ),
    }
}

/// `ratatui::layout::Layout::split` divides an area into parts below each other or beside each
/// other, one for each constraint, all in the area. Parts below each other are as wide as the area,
/// parts beside each other as high. The solver holds what stands before the first part and between
/// two parts to no size, with more weight than any size has, and lets a part that can grow take what
/// is left over. So where constraints share the whole of the area, each part begins where the one
/// before it ends, and the parts cover the area: ends then fall on whole hundredths of a cell, or
/// well between them, and two that meet are rounded alike. Percentages are then met, up to rounding,
/// and so are fixed lengths where all that is asked for fits. What becomes of sizes that do not fit, and to which
/// side an end is rounded, is left open here: a solver with weighted constraints and hash tables
/// decides it.
#[verifier::external_body]
pub(crate) fn split_area(area: Rect, vertical: bool, constraints: &Vec<Constraint>) -> (parts: Vec<
    Rect,
>)
    requires
        is_bounded(area),
    ensures
        parts@.len() == constraints@.len(),
        forall|k: int| 0 <= k < parts@.len() ==> is_within(#[trigger] parts@[k], area),
        forall|k: int|
            0 <= k < parts@.len() && vertical ==> (#[trigger] parts@[k]).x == area.x
                && parts@[k].width == area.width,
        forall|k: int|
            0 <= k < parts@.len() && !vertical ==> (#[trigger] parts@[k]).y == area.y
                && parts@[k].height == area.height,
        shares_the_whole(constraints@) ==> covers(parts@, area, vertical),
        shares_the_whole(constraints@) ==> forall|k: int|
            0 <= k < parts@.len() ==> is_as_long_as(
                #[trigger] parts@[k],
                constraints@[k],
                area,
                vertical,
                cells_wanted(constraints@) <= extent(area, vertical),
            ),
{
    let given = constraints.iter().map(|part| match part {
        Constraint::Length(size) => ratatui::layout::Constraint::Length(*size),
        Constraint::Min(size) => ratatui::layout::Constraint::Min(*size),
        Constraint::Percentage(share) => ratatui::layout::Constraint::Percentage(*share),
    });
    let layout = match vertical {
        true => ratatui::layout::Layout::vertical(given),
        false => ratatui::layout::Layout::horizontal(given),
    };
    let whole = ratatui::layout::Rect::new(area.x, area.y, area.width, area.height);
    layout.split(whole).iter().map(
        |part| Rect { x: part.x, y: part.y, width: part.width, height: part.height },
    ).collect()
}

/// The parts of the screen: a line for the status, and the panes.
pub fn screen_constraints() -> (constraints: Vec<Constraint>)
    ensures
        constraints@ == seq![Constraint::Length(1), Constraint::Min(5)],
{
    vec![Constraint::Length(1), Constraint::Min(5)]
}

/// The rows that the panes stand in: two on a wide screen, of which the upper one holds the lists,
/// and one for each pane on another.
pub fn row_constraints(wide: bool) -> (constraints: Vec<Constraint>)
    ensures
        constraints@ == if wide {
            seq![Constraint::Percentage(36), Constraint::Percentage(64)]
        } else {
            seq![Constraint::Percentage(25), Constraint::Percentage(35), Constraint::Percentage(40)]
        },
{
    if wide {
        vec![Constraint::Percentage(36), Constraint::Percentage(64)]
    } else {
        vec![Constraint::Percentage(25), Constraint::Percentage(35), Constraint::Percentage(40)]
    }
}

/// The columns that the lists stand in on a wide screen.
pub fn column_constraints() -> (constraints: Vec<Constraint>)
    ensures
        constraints@ == seq![Constraint::Percentage(42), Constraint::Percentage(58)],
{
    vec![Constraint::Percentage(42), Constraint::Percentage(58)]
}

/// Whether a screen is wide enough for two lists beside each other.
pub open spec fn is_wide(area: Rect) -> bool {
    area.width >= 100
}

/// The panes, given the parts of the screen, the rows of the lower part, and the columns of the upper
/// row on a wide screen: the status comes first, then the projects, the chats and the preview.
pub fn panes_of(wide: bool, outer: &Vec<Rect>, rows: &Vec<Rect>, top: &Vec<Rect>) -> (areas:
    PaneAreas)
    requires
        outer@.len() >= 1,
        wide ==> rows@.len() >= 2 && top@.len() >= 2,
        !wide ==> rows@.len() >= 3,
    ensures
        areas.status == outer@[0],
        wide ==> areas.projects == top@[0] && areas.threads == top@[1] && areas.preview == rows@[1],
        !wide ==> areas.projects == rows@[0] && areas.threads == rows@[1] && areas.preview
            == rows@[2],
{
    if wide {
        PaneAreas { status: outer[0], projects: top[0], threads: top[1], preview: rows[1] }
    } else {
        PaneAreas { status: outer[0], projects: rows[0], threads: rows[1], preview: rows[2] }
    }
}

/// Whether an area ends above another.
pub open spec fn is_above(area: Rect, other: Rect) -> bool {
    area.y + area.height <= other.y
}

/// Whether an area ends to the left of another.
pub open spec fn is_left_of(area: Rect, other: Rect) -> bool {
    area.x + area.width <= other.x
}

/// Divides the screen among the panes: the status on top, then the lists, beside each other where
/// the screen is wide, and the preview below.
pub fn pane_areas(area: Rect) -> (areas: PaneAreas)
    requires
        is_bounded(area),
    ensures
        is_within(areas.status, area),
        is_within(areas.projects, area),
        is_within(areas.threads, area),
        is_within(areas.preview, area),
        is_above(areas.status, areas.projects),
        is_above(areas.status, areas.threads),
        is_above(areas.projects, areas.preview),
        is_above(areas.threads, areas.preview),
        areas.status.y == area.y,
        area.height >= 6 ==> areas.status.height == 1,
        areas.preview.y + areas.preview.height == area.y + area.height,
        areas.status.x == area.x && areas.status.width == area.width,
        areas.preview.x == area.x && areas.preview.width == area.width,
        areas.projects.y == areas.status.y + areas.status.height,
        areas.threads.y + areas.threads.height == areas.preview.y,
        is_wide(area) ==> is_left_of(areas.projects, areas.threads) && areas.projects.y
            == areas.threads.y && areas.projects.height == areas.threads.height && areas.projects.x
            == area.x && areas.projects.width + areas.threads.width == area.width && is_share(
            areas.projects.width as int,
            42,
            area.width as int,
        ) && is_share(areas.projects.height as int, 36, area.height - areas.status.height),
        !is_wide(area) ==> is_above(areas.projects, areas.threads) && areas.projects.x == area.x
            && areas.projects.width == area.width && areas.threads.x == area.x
            && areas.threads.width == area.width && is_share(
            areas.projects.height as int,
            25,
            area.height - areas.status.height,
        ) && is_share(areas.threads.height as int, 35, area.height - areas.status.height),
{
    let wide = area.width >= 100;
    let screen = screen_constraints();
    let outer = split_area(area, true, &screen);
    let lower = row_constraints(wide);
    let rows = split_area(outer[1], true, &lower);
    let columns = column_constraints();
    let top = if wide {
        split_area(rows[0], false, &columns)
    } else {
        Vec::new()
    };
    proof {
        reveal_with_fuel(total_share, 4);
        reveal_with_fuel(cells_wanted, 3);
        assert(outer@[0].height == 1 || area.height < 6);
        assert(extent(outer@[1], true) == area.height - outer@[0].height);
        assert(screen@[1] is Min);
        assert(shares_the_whole(screen@));
        assert(shares_the_whole(lower@));
        assert(shares_the_whole(columns@));
        assert(follows(outer@[1], outer@[0], true));
        assert(follows(rows@[1], rows@[0], true));
        assert(wide ==> follows(top@[1], top@[0], false));
        assert(!wide ==> follows(rows@[2], rows@[1], true));
    }
    panes_of(wide, &outer, &rows, &top)
}

/// The parts of the help: what it is about, the keys, and a hint.
pub fn help_rows() -> (constraints: Vec<Constraint>)
    ensures
        constraints@ == seq![Constraint::Length(2), Constraint::Min(8), Constraint::Length(1)],
{
    vec![Constraint::Length(2), Constraint::Min(8), Constraint::Length(1)]
}

/// The columns of the keys in the help.
pub fn help_columns() -> (constraints: Vec<Constraint>)
    ensures
        constraints@ == seq![Constraint::Percentage(50), Constraint::Percentage(50)],
{
    vec![Constraint::Percentage(50), Constraint::Percentage(50)]
}

/// Finds what is left of an area within margins.
pub fn inner(area: Rect, horizontal: u16, vertical: u16) -> (result: Rect)
    requires
        2 * horizontal <= u16::MAX,
        2 * vertical <= u16::MAX,
    ensures
        result == within_margins(area, horizontal as int, vertical as int),
{
    if area.width < 2 * horizontal || area.height < 2 * vertical {
        Rect { x: 0, y: 0, width: 0, height: 0 }
    } else {
        Rect {
            x: area.x.saturating_add(horizontal),
            y: area.y.saturating_add(vertical),
            width: area.width - 2 * horizontal,
            height: area.height - 2 * vertical,
        }
    }
}

/// The areas of the help.
#[derive(Clone, Copy, Debug, PartialEq, Eq, Structural)]
pub struct HelpAreas {
    pub introduction: Rect,
    pub left: Rect,
    pub right: Rect,
    pub hint: Rect,
}

/// The areas of the help, given its rows, and the columns of the second one: the introduction comes
/// first, then the keys, and the hint last.
pub fn help_of(rows: &Vec<Rect>, columns: &Vec<Rect>) -> (areas: HelpAreas)
    requires
        rows@.len() >= 3,
        columns@.len() >= 2,
    ensures
        areas.introduction == rows@[0],
        areas.left == columns@[0],
        areas.right == columns@[1],
        areas.hint == rows@[2],
{
    HelpAreas { introduction: rows[0], left: columns[0], right: columns[1], hint: rows[2] }
}

/// Divides the area of the help, within its border and a margin.
pub fn help_areas(popup: Rect) -> (areas: HelpAreas)
    requires
        is_bounded(popup),
    ensures
        is_within(areas.introduction, within_margins(popup, 2, 1)),
        is_within(areas.left, within_margins(popup, 2, 1)),
        is_within(areas.right, within_margins(popup, 2, 1)),
        is_within(areas.hint, within_margins(popup, 2, 1)),
        is_above(areas.introduction, areas.left),
        is_above(areas.introduction, areas.right),
        is_above(areas.left, areas.hint),
        is_above(areas.right, areas.hint),
        is_left_of(areas.left, areas.right),
        areas.introduction.y == within_margins(popup, 2, 1).y,
        within_margins(popup, 2, 1).height >= 11 ==> areas.introduction.height == 2
            && areas.hint.height == 1,
        is_share(areas.left.width as int, 50, within_margins(popup, 2, 1).width as int),
        areas.left.y == areas.introduction.y + areas.introduction.height,
        areas.hint.y == areas.left.y + areas.left.height,
        areas.hint.y + areas.hint.height == within_margins(popup, 2, 1).y + within_margins(
            popup,
            2,
            1,
        ).height,
        areas.left.x == within_margins(popup, 2, 1).x,
        areas.left.width + areas.right.width == within_margins(popup, 2, 1).width,
        areas.introduction.x == within_margins(popup, 2, 1).x && areas.introduction.width
            == within_margins(popup, 2, 1).width,
        areas.hint.x == within_margins(popup, 2, 1).x && areas.hint.width == within_margins(
            popup,
            2,
            1,
        ).width,
        areas.left.y == areas.right.y && areas.left.height == areas.right.height,
{
    let area = inner(popup, 2, 1);
    let parts = help_rows();
    let rows = split_area(area, true, &parts);
    let halves = help_columns();
    let columns = split_area(rows[1], false, &halves);
    proof {
        reveal_with_fuel(total_share, 3);
        reveal_with_fuel(cells_wanted, 4);
        assert(parts@[1] is Min);
        assert(shares_the_whole(parts@));
        assert(shares_the_whole(halves@));
        assert(follows(rows@[1], rows@[0], true));
        assert(follows(rows@[2], rows@[1], true));
        assert(follows(columns@[1], columns@[0], false));
    }
    help_of(&rows, &columns)
}

} // verus!
