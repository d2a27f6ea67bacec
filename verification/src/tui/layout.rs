//! Where the tab bar, the status bar and each view's panels lie on the screen.
use vstd::prelude::*;
use ratatui::layout::{Constraint, Direction, Layout, Rect};
use crate::tui::app::{panel_count, Area, ViewMode};

verus! {

/// The direction in which an area is cut.
#[derive(Debug, PartialEq, Eq, Structural, Clone, Copy)]
pub enum Axis {
    /// Side by side.
    Horizontal,
    /// One above the other.
    Vertical,
}

/// How much of an area one part takes.
#[derive(Debug, PartialEq, Eq, Structural, Clone, Copy)]
pub enum Share {
    /// Exactly this many cells.
    Length(u16),
    /// At least this many cells.
    Min(u16),
    /// This percentage of the area.
    Percentage(u16),
}

/// `Layout::split` with the default margin, spacing and flex: one part per
/// share. Each part spans the area across the cut (same column and width
/// for a vertical cut, same row and height for a horizontal one) and ends
/// within the coordinate range. Where each cut falls is worked out by a
/// constraint solver that walks hash maps seeded per process, so it is left
/// open; that the solver accepts these shares (it panics on a set it
/// rejects) is not stated either.
#[verifier::external_body]
fn split(area: Area, axis: Axis, shares: &Vec<Share>) -> (r: Vec<Area>)
    ensures
        r@.len() == shares@.len(),
        area.wf() ==> forall|i: int| 0 <= i < r@.len() ==> (#[trigger] r@[i]).wf(),
        forall|i: int|
            0 <= i < r@.len() ==> match axis {
                Axis::Vertical => (#[trigger] r@[i]).x == area.x && r@[i].width == area.width,
                Axis::Horizontal => (#[trigger] r@[i]).y == area.y && r@[i].height == area.height,
            },
{
    let d = match axis { Axis::Horizontal => Direction::Horizontal, Axis::Vertical => Direction::Vertical };
    let mut cs = Vec::new();
    for s in shares {
        cs.push(match *s { Share::Length(n) => Constraint::Length(n), Share::Min(n) => Constraint::Min(n), Share::Percentage(n) => Constraint::Percentage(n) });
    }
    let parts = Layout::default().direction(d).constraints(cs).split(Rect { x: area.x, y: area.y, width: area.width, height: area.height });
    let mut r = Vec::new();
    for p in parts.iter() {
        r.push(Area { x: p.x, y: p.y, width: p.width, height: p.height });
    }
    r
}

/// Whether every area of `v` lies within the coordinate range.
pub open spec fn all_wf(v: Seq<Area>) -> bool {
    forall|i: int| 0 <= i < v.len() ==> (#[trigger] v[i]).wf()
}

/// Whether each area of `v` spans `body` across a horizontal cut.
pub open spec fn spans_rows(v: Seq<Area>, body: Area) -> bool {
    forall|i: int| 0 <= i < v.len() ==> (#[trigger] v[i]).y == body.y && v[i].height == body.height
}

/// The screen of `size` cut into the tab bar (three rows), the view and the
/// status bar (one row).
pub fn screen_rows(size: Area) -> (r: Vec<Area>)
    ensures
        r@.len() == 3,
        size.wf() ==> all_wf(r@),
        forall|i: int| 0 <= i < 3 ==> (#[trigger] r@[i]).x == size.x && r@[i].width == size.width,
{
    let shares = vec![Share::Length(3), Share::Min(0), Share::Length(1)];
    split(size, Axis::Vertical, &shares)
}

/// The panels of view `mode` laid out in `body`, in focus order: the
/// dashboard's three rows of panels (a row whose panels are all collapsed,
/// as `rows` tells, three cells high), the explorers' three columns and the
/// viewers' two, or the whole body for a view of one panel.
pub fn view_panel_areas(mode: ViewMode, body: Area, rows: [bool; 3]) -> (r: Vec<Area>)
    ensures
        r@.len() == panel_count(mode),
        body.wf() ==> all_wf(r@),
        mode != ViewMode::Dashboard ==> spans_rows(r@, body),
        (mode == ViewMode::Topology || mode == ViewMode::Gantt) ==> r@ == seq![body],
{
    match mode {
        ViewMode::Dashboard => {
            let row = |c: bool|
                if c {
                    Share::Length(3)
                } else {
                    Share::Min(0)
                };
            let row_shares = vec![row(rows[0]), row(rows[1]), row(rows[2])];
            let r = split(body, Axis::Vertical, &row_shares);
            let t = vec![Share::Percentage(33), Share::Percentage(33), Share::Percentage(34)];
            let whole = vec![Share::Percentage(100)];
            let a = split(r[0], Axis::Horizontal, &t);
            let b = split(r[1], Axis::Horizontal, &t);
            let c = split(r[2], Axis::Horizontal, &whole);
            vec![a[0], a[1], a[2], b[0], b[1], b[2], c[0]]
        },
        ViewMode::RedisExplorer | ViewMode::MongoExplorer => {
            let s = vec![Share::Percentage(20), Share::Percentage(30), Share::Percentage(50)];
            split(body, Axis::Horizontal, &s)
        },
        ViewMode::RedisStreams | ViewMode::KafkaViewer | ViewMode::RabbitMQViewer => {
            let s = vec![Share::Percentage(30), Share::Percentage(70)];
            split(body, Axis::Horizontal, &s)
        },
        ViewMode::Topology | ViewMode::Gantt => {
            let out = vec![body];
            assert(out@ =~= seq![body]);
            out
        },
    }
}

} // verus!
