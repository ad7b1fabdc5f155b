//! Where the parts of the library's screen stand.
use crate::tui::state::Area;
use vstd::prelude::*;

verus! {

/// How high a part of the screen is to be.
#[derive(Debug, Clone, Copy, PartialEq, Eq, Structural)]
pub enum RowHeight {
    Exactly(u16),
    AtLeast(u16),
}

impl RowHeight {
    /// The rows that the part needs.
    pub open spec fn needed(self) -> nat {
        match self {
            RowHeight::Exactly(n) => n as nat,
            RowHeight::AtLeast(n) => n as nat,
        }
    }

    /// The rows that the part has where `spare` rows are left over.
    pub open spec fn given(self, spare: nat) -> nat {
        match self {
            RowHeight::Exactly(n) => n as nat,
            RowHeight::AtLeast(n) => n as nat + spare,
        }
    }
}

/// The rows that parts need.
pub open spec fn rows_needed(parts: Seq<RowHeight>) -> nat
    decreases parts.len(),
{
    if parts.len() == 0 {
        0
    } else {
        rows_needed(parts.drop_last()) + parts.last().needed()
    }
}

/// The row at which part `k` starts where the parts stand one below the other
/// and `spare` rows are left over.
pub open spec fn row_start(parts: Seq<RowHeight>, spare: nat, k: int) -> nat
    decreases k,
{
    if k <= 0 {
        0
    } else {
        row_start(parts, spare, k - 1) + parts[k - 1].given(spare)
    }
}

/// Whether the parts fit into so many rows, and exactly one of them, which asks
/// for less than half of all rows there can be, takes what is left over.
pub open spec fn fits(parts: Seq<RowHeight>, height: u16) -> bool {
    &&& rows_needed(parts) <= height
    &&& exists|i: int|
        #![trigger parts[i]]
        0 <= i < parts.len() && parts[i] is AtLeast && parts[i].needed() <= 0x7fff && forall|j: int|
            0 <= j < parts.len() && j != i ==> #[trigger] parts[j] is Exactly
}

/// `ratatui`'s `Layout::split`, with the default layout, from top to bottom, on an
/// area at the origin: one area for each part, over the whole width, within the
/// height. Where the parts fit and one of them may grow, they stand one below
/// the other, and that one takes what is left over. (Where they do not fit, the
/// solver behind it may choose differently from one run to the next: what it
/// chooses is left unsaid.)
#[verifier::external_body]
fn split_rows(width: u16, height: u16, parts: &Vec<RowHeight>) -> (r: Vec<Area>)
    requires
        parts@.len() <= 16,
    ensures
        r@.len() == parts@.len(),
        forall|k: int|
            0 <= k < r@.len() ==> (#[trigger] r@[k]).x == 0 && r@[k].width == width && r@[k].y
                + r@[k].height <= height,
        fits(parts@, height) ==> forall|k: int|
            0 <= k < r@.len() ==> (#[trigger] r@[k]).y == row_start(
                parts@,
                (height - rows_needed(parts@)) as nat,
                k,
            ) && r@[k].height == parts@[k].given((height - rows_needed(parts@)) as nat),
{
    let limits = parts.iter().map(
        |part| match part {
            RowHeight::Exactly(n) => ratatui::layout::Constraint::Length(*n),
            RowHeight::AtLeast(n) => ratatui::layout::Constraint::Min(*n),
        },
    );
    let area = ratatui::layout::Rect { x: 0, y: 0, width, height };
    ratatui::layout::Layout::vertical(limits).split(area).iter().map(
        |part| Area { x: part.x, y: part.y, width: part.width, height: part.height },
    ).collect()
}

/// The rows that the library's screen needs at least.
pub const LIBRARY_ROWS: u16 = 24;

/// Where the parts of the library's screen stand on a terminal: the heading, the
/// rows, the details, the buttons and the status.
pub fn library_areas(width: u16, height: u16) -> (r: Vec<Area>)
    ensures
        r@.len() == 5,
        forall|k: int|
            0 <= k < 5 ==> (#[trigger] r@[k]).x == 0 && r@[k].width == width && r@[k].y
                + r@[k].height <= height,
        height >= LIBRARY_ROWS ==> {
            &&& r@[0].y == 0 && r@[0].height == 3
            &&& r@[1].y == 3 && r@[1].height == height - 14
            &&& r@[2].y == height - 11 && r@[2].height == 5
            &&& r@[3].y == height - 6 && r@[3].height == 3
            &&& r@[4].y == height - 3 && r@[4].height == 3
        },
{
    let parts: Vec<RowHeight> = vec![
        RowHeight::Exactly(3),
        RowHeight::AtLeast(10),
        RowHeight::Exactly(5),
        RowHeight::Exactly(3),
        RowHeight::Exactly(3),
    ];
    proof {
        reveal_with_fuel(rows_needed, 6);
        reveal_with_fuel(row_start, 6);
        assert(parts@[1] is AtLeast);
        assert(rows_needed(parts@) == 24);
        assert(height >= LIBRARY_ROWS ==> fits(parts@, height));
    }
    split_rows(width, height, &parts)
}

/// Where the buttons of the library stand on a terminal.
pub fn buttons_area(width: u16, height: u16) -> (r: Area)
    ensures
        r.x == 0,
        r.width == width,
        r.y + r.height <= height,
        height >= LIBRARY_ROWS ==> r.y == height - 6 && r.height == 3,
{
    library_areas(width, height)[3]
}

} // verus!
