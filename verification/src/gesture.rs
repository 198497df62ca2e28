use vstd::prelude::*;
use crate::tracker::{
    Border, Corner, Direction, MouseEvent, RectangleModel, near, corner_at, rect_step, rect_initial,
    border_after, corner_after, edge_end, lemma_corner_cycle, rect_wf, lemma_rect_initial_wf,
    lemma_rect_step_preserves_wf, lemma_rect_completion,
};

verus! {

/// A sequence of events applied to the rectangle tracker one after the
/// other: the final state and what each event reported, in order.
#[verifier::opaque]
pub open spec fn rect_run(m: RectangleModel, w: int, h: int, events: Seq<MouseEvent>) -> (RectangleModel, Seq<bool>)
    decreases events.len(),
{
    if events.len() == 0 {
        (m, seq![])
    } else {
        let (m1, r) = rect_step(m, w, h, events[0]);
        let (m2, rest) = rect_run(m1, w, h, events.drop_first());
        (m2, seq![r] + rest)
    }
}

/// Running two sequences one after the other is running their concatenation.
pub proof fn lemma_rect_run_append(m: RectangleModel, w: int, h: int, a: Seq<MouseEvent>, b: Seq<MouseEvent>)
    ensures
        rect_run(m, w, h, a + b).0 == rect_run(rect_run(m, w, h, a).0, w, h, b).0,
        rect_run(m, w, h, a + b).1 == rect_run(m, w, h, a).1 + rect_run(rect_run(m, w, h, a).0, w, h, b).1,
    decreases a.len(),
{
    reveal(rect_run);
    if a.len() > 0 {
        let m1 = rect_step(m, w, h, a[0]).0;
        assert((a + b).drop_first() == a.drop_first() + b);
        assert((a + b)[0] == a[0]);
        lemma_rect_run_append(m1, w, h, a.drop_first(), b);
        assert(rect_run(m, w, h, a + b).1 == seq![rect_step(m, w, h, a[0]).1] + rect_run(m1, w, h, a.drop_first() + b).1);
        assert(seq![rect_step(m, w, h, a[0]).1] + (rect_run(m1, w, h, a.drop_first()).1 + rect_run(
            rect_run(m, w, h, a).0,
            w,
            h,
            b,
        ).1) =~= rect_run(m, w, h, a).1 + rect_run(rect_run(m, w, h, a).0, w, h, b).1);
    } else {
        assert(a + b =~= b);
        assert(rect_run(m, w, h, a).1 + rect_run(m, w, h, b).1 =~= rect_run(m, w, h, b).1);
    }
}

/// Pointer moves to the given positions, in order.
pub open spec fn moves(pts: Seq<(i32, i32)>) -> Seq<MouseEvent> {
    pts.map_values(|p: (i32, i32)| MouseEvent::MouseMove { x: p.0, y: p.1 })
}

/// `(x, y)` lies within the tolerance of the line along which edge `b` runs.
pub open spec fn on_edge_line(b: Border, x: int, y: int, w: int, h: int) -> bool {
    match b {
        Border::Top => near(y, 0),
        Border::Bottom => near(y, h),
        Border::Left => near(x, 0),
        Border::Right => near(x, w),
        Border::NoBorder => false,
    }
}

/// `(x, y)` is a point of edge `b` on the screen and away from the corners.
pub open spec fn edge_point(b: Border, x: int, y: int, w: int, h: int) -> bool {
    &&& on_edge_line(b, x, y, w, h)
    &&& corner_at(x, y, w, h) == Corner::NoCorner
    &&& 0 <= x < w
    &&& 0 <= y < h
}

/// Going along edge `b` in direction `d`, `(qx, qy)` is not behind `(px, py)`.
pub open spec fn advances(d: Direction, b: Border, px: int, py: int, qx: int, qy: int) -> bool {
    match d {
        Direction::Clockwise => match b {
            Border::Top => px <= qx,
            Border::Right => py <= qy,
            Border::Bottom => px >= qx,
            Border::Left => py >= qy,
            Border::NoBorder => false,
        },
        Direction::CounterClockwise => match b {
            Border::Top => px >= qx,
            Border::Left => py <= qy,
            Border::Bottom => px <= qx,
            Border::Right => py >= qy,
            Border::NoBorder => false,
        },
        Direction::Unknown => false,
    }
}

/// A stroke along edge `b` in direction `d`: at least one point, every point
/// on the edge, each one not behind the one before.
pub open spec fn edge_stroke(d: Direction, b: Border, pts: Seq<(i32, i32)>, w: int, h: int) -> bool {
    &&& pts.len() > 0
    &&& forall|i: int| 0 <= i < pts.len() ==> edge_point(b, #[trigger] pts[i].0 as int, pts[i].1 as int, w, h)
    &&& forall|i: int|
        0 <= i < pts.len() - 1 ==> advances(
            d,
            b,
            #[trigger] pts[i].0 as int,
            pts[i].1 as int,
            pts[i + 1].0 as int,
            pts[i + 1].1 as int,
        )
}

/// At least one position, all in corner `c`.
pub open spec fn corner_stay(c: Corner, pts: Seq<(i32, i32)>, w: int, h: int) -> bool {
    &&& pts.len() > 0
    &&& forall|i: int| 0 <= i < pts.len() ==> corner_at(#[trigger] pts[i].0 as int, pts[i].1 as int, w, h) == c
}

/// Going along edge `b` in direction `d` the tracker records only the height
/// of the pointer (the right edge, counter-clockwise).
pub open spec fn keeps_x(d: Direction, b: Border) -> bool {
    d == Direction::CounterClockwise && b == Border::Right
}

/// A rectangle traced round the screen from corner `c0` in direction `d`:
/// for each of the four edges in turn, a stay in the corner where it starts
/// (`corners[k]`) and a stroke along it (`edges[k]`), then a move back into
/// `c0`. Counter-clockwise, a stroke along the top edge that comes after the
/// bottom and right strokes starts no further right than where the bottom
/// stroke ended (going up the right edge only the height is recorded).
pub open spec fn rectangle_trace(
    c0: Corner,
    d: Direction,
    corners: Seq<Seq<(i32, i32)>>,
    edges: Seq<Seq<(i32, i32)>>,
    last: (i32, i32),
    w: int,
    h: int,
) -> bool {
    &&& c0 != Corner::NoCorner
    &&& d != Direction::Unknown
    &&& corners.len() == 4
    &&& edges.len() == 4
    &&& forall|k: int| 0 <= k < 4 ==> corner_stay(corner_after(c0, d, k), #[trigger] corners[k], w, h)
    &&& forall|k: int| 0 <= k < 4 ==> edge_stroke(d, border_after(d, corner_after(c0, d, k)), #[trigger] edges[k], w, h)
    &&& forall|k: int|
        2 <= k < 4 && d == Direction::CounterClockwise && border_after(d, corner_after(c0, d, k)) == Border::Top
            ==> #[trigger] edges[k][0].0 <= edges[k - 2].last().0
    &&& corner_at(last.0 as int, last.1 as int, w, h) == c0
}

/// The events of such a trace, in order.
pub open spec fn trace_events(corners: Seq<Seq<(i32, i32)>>, edges: Seq<Seq<(i32, i32)>>, last: (i32, i32)) -> Seq<MouseEvent> {
    moves(corners[0]) + moves(edges[0]) + moves(corners[1]) + moves(edges[1]) + moves(corners[2]) + moves(edges[2])
        + moves(corners[3]) + moves(edges[3]) + seq![MouseEvent::MouseMove { x: last.0, y: last.1 }]
}

/// No event reported a rectangle.
pub open spec fn none_reported(rs: Seq<bool>) -> bool {
    forall|i: int| 0 <= i < rs.len() ==> !#[trigger] rs[i]
}

/// The last corner visited in a gesture from `c0` in direction `d` that has
/// reached corner `k`: none or the start corner itself at the start, else
/// corner `k`.
pub open spec fn last_visited(m: RectangleModel, c0: Corner, d: Direction, k: int) -> bool {
    if k == 0 {
        m.last_corner == Corner::NoCorner || m.last_corner == c0
    } else {
        m.last_corner == corner_after(c0, d, k)
    }
}

/// The tracker waits in corner `k` of a gesture from `c0` in direction `d`:
/// the corners up to it are counted in order and the edge starting there is
/// next; for `k > 0` the recorded horizontal position is `lim`, and the
/// recorded position lies on the edge that ends there (in height only, if
/// that edge records the height alone).
#[verifier::opaque]
pub open spec fn in_corner(m: RectangleModel, c0: Corner, d: Direction, k: int, lim: int, w: int, h: int) -> bool {
    &&& m.is_rectangle
    &&& m.corner_reached
    &&& m.initial_corner == c0
    &&& m.count_corners == k + 1
    &&& m.lap_corners == k + 1
    &&& m.in_order
    &&& !m.side_moved
    &&& last_visited(m, c0, d, k)
    &&& if k == 0 {
        m.direction == Direction::Unknown
    } else {
        let pb = border_after(d, corner_after(c0, d, k - 1));
        &&& m.direction == d
        &&& m.current_border == border_after(d, corner_after(c0, d, k))
        &&& m.prev_x == lim
        &&& !keeps_x(d, pb) ==> on_edge_line(pb, m.prev_x, m.prev_y, w, h)
    }
}

/// The tracker follows edge `k` of a gesture from `c0` in direction `d`,
/// having moved along it; its last recorded position is on that edge, or,
/// if the edge records the height alone, its recorded horizontal position
/// is `lim`.
#[verifier::opaque]
pub open spec fn on_edge(m: RectangleModel, c0: Corner, d: Direction, k: int, lim: int, w: int, h: int) -> bool {
    &&& m.is_rectangle
    &&& m.corner_reached
    &&& m.initial_corner == c0
    &&& m.count_corners == k + 1
    &&& m.lap_corners == k + 1
    &&& m.in_order
    &&& m.side_moved
    &&& k > 0 ==> m.flag_fine
    &&& last_visited(m, c0, d, k)
    &&& m.direction == d
    &&& m.current_border == border_after(d, corner_after(c0, d, k))
    &&& keeps_x(d, m.current_border) ==> m.prev_x == lim
    &&& !keeps_x(d, m.current_border) ==> edge_point(m.current_border, m.prev_x, m.prev_y, w, h)
}

/// The horizontal position recorded after a stroke `pts` along edge `k`
/// (edge `b`) in direction `d`, when `lim` was recorded before it.
pub open spec fn stroke_lim(d: Direction, k: int, b: Border, pts: Seq<(i32, i32)>, lim: int) -> int {
    if keeps_x(d, b) {
        if k == 0 {
            pts[0].0 as int
        } else {
            lim
        }
    } else {
        pts.last().0 as int
    }
}


proof fn lemma_moves_first(pts: Seq<(i32, i32)>)
    requires
        pts.len() > 0,
    ensures
        moves(pts).len() == pts.len(),
        moves(pts)[0] == (MouseEvent::MouseMove { x: pts[0].0, y: pts[0].1 }),
        moves(pts).drop_first() == moves(pts.drop_first()),
{
    assert(moves(pts).drop_first() =~= moves(pts.drop_first()));
}

/// Staying in the start corner: the first move starts the gesture, the
/// others change nothing that matters, and nothing is reported.
proof fn lemma_start_stay(m: RectangleModel, c0: Corner, d: Direction, pts: Seq<(i32, i32)>, w: int, h: int)
    requires
        c0 != Corner::NoCorner,
        forall|i: int| 0 <= i < pts.len() ==> corner_at(#[trigger] pts[i].0 as int, pts[i].1 as int, w, h) == c0,
        (m == rect_initial() && pts.len() > 0) || in_corner(m, c0, d, 0, 0, w, h),
    ensures
        in_corner(rect_run(m, w, h, moves(pts)).0, c0, d, 0, 0, w, h),
        none_reported(rect_run(m, w, h, moves(pts)).1),
    decreases pts.len(),
{
    reveal(in_corner);
    reveal(rect_run);
    if pts.len() > 0 {
        lemma_moves_first(pts);
        let m1 = rect_step(m, w, h, moves(pts)[0]).0;
        assert(corner_at(pts[0].0 as int, pts[0].1 as int, w, h) == c0);
        assert(in_corner(m1, c0, d, 0, 0, w, h));
        assert(!rect_step(m, w, h, moves(pts)[0]).1);
        lemma_start_stay(m1, c0, d, pts.drop_first(), w, h);
    } else {
        assert(moves(pts) =~= Seq::<MouseEvent>::empty());
    }
}

#[verifier::rlimit(80)]
proof fn lemma_corner_step(m: RectangleModel, c0: Corner, d: Direction, k: int, lim: int, x: i32, y: i32, w: int, h: int)
    requires
        c0 != Corner::NoCorner,
        d != Direction::Unknown,
        1 <= k <= 3,
        corner_at(x as int, y as int, w, h) == corner_after(c0, d, k),
        (on_edge(m, c0, d, k - 1, lim, w, h) && m.prev_x == lim) || in_corner(m, c0, d, k, lim, w, h),
    ensures
        in_corner(rect_step(m, w, h, MouseEvent::MouseMove { x, y }).0, c0, d, k, lim, w, h),
        !rect_step(m, w, h, MouseEvent::MouseMove { x, y }).1,
{
    reveal(in_corner);
    reveal(on_edge);
    lemma_corner_cycle(c0, d);
    let c = corner_after(c0, d, k);
    assert(c != c0 && c != Corner::NoCorner);
    if in_corner(m, c0, d, k, lim, w, h) {
    } else {
        assert(edge_end(d, border_after(d, corner_after(c0, d, k - 1))) == c);
        assert(m.last_corner != c) by {
            if k == 1 {
            } else {
                assert(corner_after(c0, d, k - 1) != c) by {
                    match d {
                        Direction::Clockwise => match c0 {
                            Corner::TopLeft => {},
                            Corner::TopRight => {},
                            Corner::BottomRight => {},
                            Corner::BottomLeft => {},
                            Corner::NoCorner => {},
                        },
                        _ => match c0 {
                            Corner::TopLeft => {},
                            Corner::TopRight => {},
                            Corner::BottomRight => {},
                            Corner::BottomLeft => {},
                            Corner::NoCorner => {},
                        },
                    }
                }
            }
        }
    }
}

/// Staying in corner `k` (one to three) after following the edge that ends
/// there: the first move counts the corner and turns onto the next edge, the
/// others change nothing that matters, and nothing is reported.
proof fn lemma_corner_stay(m: RectangleModel, c0: Corner, d: Direction, k: int, lim: int, pts: Seq<(i32, i32)>, w: int, h: int)
    requires
        c0 != Corner::NoCorner,
        d != Direction::Unknown,
        1 <= k <= 3,
        forall|i: int| 0 <= i < pts.len() ==> corner_at(#[trigger] pts[i].0 as int, pts[i].1 as int, w, h) == corner_after(c0, d, k),
        (on_edge(m, c0, d, k - 1, lim, w, h) && m.prev_x == lim && pts.len() > 0) || in_corner(m, c0, d, k, lim, w, h),
    ensures
        in_corner(rect_run(m, w, h, moves(pts)).0, c0, d, k, lim, w, h),
        none_reported(rect_run(m, w, h, moves(pts)).1),
    decreases pts.len(),
{
    reveal(rect_run);
    if pts.len() > 0 {
        lemma_moves_first(pts);
        assert(corner_at(pts[0].0 as int, pts[0].1 as int, w, h) == corner_after(c0, d, k));
        lemma_corner_step(m, c0, d, k, lim, pts[0].0, pts[0].1, w, h);
        let m1 = rect_step(m, w, h, moves(pts)[0]).0;
        lemma_corner_stay(m1, c0, d, k, lim, pts.drop_first(), w, h);
    } else {
        assert(moves(pts) =~= Seq::<MouseEvent>::empty());
    }
}


/// Leaving the start corner along an edge adjacent to it fixes the direction
/// and that edge.
proof fn lemma_edge_first_start(m: RectangleModel, c0: Corner, d: Direction, x: i32, y: i32, w: int, h: int)
    requires
        c0 != Corner::NoCorner,
        d != Direction::Unknown,
        in_corner(m, c0, d, 0, 0, w, h),
        edge_point(border_after(d, c0), x as int, y as int, w, h),
    ensures
        on_edge(rect_step(m, w, h, MouseEvent::MouseMove { x, y }).0, c0, d, 0, x as int, w, h),
        rect_step(m, w, h, MouseEvent::MouseMove { x, y }).0.prev_x == x,
        rect_step(m, w, h, MouseEvent::MouseMove { x, y }).0.prev_y == y,
        !rect_step(m, w, h, MouseEvent::MouseMove { x, y }).1,
{
    reveal(in_corner);
    reveal(on_edge);
    assert(corner_after(c0, d, 0) == c0);
    match d {
        Direction::Clockwise => match c0 {
            Corner::TopLeft => {},
            Corner::TopRight => {},
            Corner::BottomRight => {},
            Corner::BottomLeft => {},
            Corner::NoCorner => {},
        },
        _ => match c0 {
            Corner::TopLeft => {},
            Corner::TopRight => {},
            Corner::BottomRight => {},
            Corner::BottomLeft => {},
            Corner::NoCorner => {},
        },
    }
}

/// Leaving corner `c` along the edge that starts there: the previous edge
/// ended at `c`, so the recorded position lies behind the new one.
proof fn lemma_edge_first_turned(m: RectangleModel, d: Direction, c: Corner, pb: Border, x: i32, y: i32, w: int, h: int)
    requires
        d != Direction::Unknown,
        c != Corner::NoCorner,
        edge_end(d, pb) == c,
        m.is_rectangle,
        m.direction == d,
        m.current_border == border_after(d, c),
        !keeps_x(d, pb) ==> on_edge_line(pb, m.prev_x, m.prev_y, w, h),
        keeps_x(d, pb) ==> x <= m.prev_x,
        edge_point(border_after(d, c), x as int, y as int, w, h),
    ensures
        advances(d, m.current_border, m.prev_x, m.prev_y, x as int, y as int),
{
    match d {
        Direction::Clockwise => match c {
            Corner::TopLeft => { assert(pb == Border::Left); },
            Corner::TopRight => { assert(pb == Border::Top); },
            Corner::BottomRight => { assert(pb == Border::Right); },
            Corner::BottomLeft => { assert(pb == Border::Bottom); },
            Corner::NoCorner => {},
        },
        _ => match c {
            Corner::TopLeft => { assert(pb == Border::Top); },
            Corner::TopRight => { assert(pb == Border::Right); },
            Corner::BottomRight => { assert(pb == Border::Bottom); },
            Corner::BottomLeft => { assert(pb == Border::Left); },
            Corner::NoCorner => {},
        },
    }
}

/// A move along the edge being followed, away from the corners and not
/// going back, is recorded and keeps the gesture.
proof fn lemma_edge_follow(m: RectangleModel, d: Direction, x: i32, y: i32, w: int, h: int)
    requires
        d != Direction::Unknown,
        m.is_rectangle,
        m.direction == d,
        m.current_border != Border::NoBorder,
        edge_point(m.current_border, x as int, y as int, w, h),
        advances(d, m.current_border, m.prev_x, m.prev_y, x as int, y as int),
    ensures
        rect_step(m, w, h, MouseEvent::MouseMove { x, y }).0 == (RectangleModel {
            flag_fine: true,
            side_moved: true,
            prev_x: if keeps_x(d, m.current_border) { m.prev_x } else { x as int },
            prev_y: y as int,
            ..m
        }),
        !rect_step(m, w, h, MouseEvent::MouseMove { x, y }).1,
{
    match d {
        Direction::Clockwise => match m.current_border {
            Border::Top => {},
            Border::Right => {},
            Border::Bottom => {},
            Border::Left => {},
            Border::NoBorder => {},
        },
        _ => match m.current_border {
            Border::Top => {},
            Border::Right => {},
            Border::Bottom => {},
            Border::Left => {},
            Border::NoBorder => {},
        },
    }
}

proof fn lemma_edge_next(m: RectangleModel, c0: Corner, d: Direction, k: int, lim: int, x: i32, y: i32, w: int, h: int)
    requires
        c0 != Corner::NoCorner,
        d != Direction::Unknown,
        0 <= k <= 3,
        on_edge(m, c0, d, k, lim, w, h),
        edge_point(m.current_border, x as int, y as int, w, h),
        advances(d, m.current_border, m.prev_x, m.prev_y, x as int, y as int),
    ensures
        on_edge(rect_step(m, w, h, MouseEvent::MouseMove { x, y }).0, c0, d, k, lim, w, h),
        rect_step(m, w, h, MouseEvent::MouseMove { x, y }).0.prev_x == if keeps_x(d, m.current_border) {
            m.prev_x
        } else {
            x as int
        },
        rect_step(m, w, h, MouseEvent::MouseMove { x, y }).0.prev_y == y,
        !rect_step(m, w, h, MouseEvent::MouseMove { x, y }).1,
{
    reveal(on_edge);
    lemma_edge_follow(m, d, x, y, w, h);
}


proof fn lemma_edge_first(m: RectangleModel, c0: Corner, d: Direction, k: int, lim: int, x: i32, y: i32, w: int, h: int)
    requires
        c0 != Corner::NoCorner,
        d != Direction::Unknown,
        0 <= k <= 3,
        in_corner(m, c0, d, k, lim, w, h),
        edge_point(border_after(d, corner_after(c0, d, k)), x as int, y as int, w, h),
        k > 0 && keeps_x(d, border_after(d, corner_after(c0, d, k - 1))) ==> x <= lim,
    ensures
        ({
            let m1 = rect_step(m, w, h, MouseEvent::MouseMove { x, y }).0;
            let b = border_after(d, corner_after(c0, d, k));
            let l1 = if k == 0 { x as int } else { lim };
            &&& on_edge(m1, c0, d, k, l1, w, h)
            &&& m1.prev_x == if k > 0 && keeps_x(d, b) { lim } else { x as int }
            &&& m1.prev_y == y
            &&& !rect_step(m, w, h, MouseEvent::MouseMove { x, y }).1
        }),
{
    reveal(in_corner);
    reveal(on_edge);
    lemma_corner_cycle(c0, d);
    if k == 0 {
        lemma_edge_first_start(m, c0, d, x, y, w, h);
    } else {
        let c = corner_after(c0, d, k);
        let pb = border_after(d, corner_after(c0, d, k - 1));
        assert(edge_end(d, pb) == c);
        lemma_edge_first_turned(m, d, c, pb, x, y, w, h);
        lemma_edge_follow(m, d, x, y, w, h);
    }
}


/// Following edge `k` from its first point on: every further point of the
/// stroke is recorded, the gesture is kept and nothing is reported.
proof fn lemma_edge_continue(m: RectangleModel, c0: Corner, d: Direction, k: int, lim: int, pts: Seq<(i32, i32)>, w: int, h: int)
    requires
        c0 != Corner::NoCorner,
        d != Direction::Unknown,
        0 <= k <= 3,
        on_edge(m, c0, d, k, lim, w, h),
        forall|i: int| 0 <= i < pts.len() ==> edge_point(m.current_border, #[trigger] pts[i].0 as int, pts[i].1 as int, w, h),
        pts.len() > 0 ==> advances(d, m.current_border, m.prev_x, m.prev_y, pts[0].0 as int, pts[0].1 as int),
        forall|i: int|
            0 <= i < pts.len() - 1 ==> advances(
                d,
                m.current_border,
                #[trigger] pts[i].0 as int,
                pts[i].1 as int,
                pts[i + 1].0 as int,
                pts[i + 1].1 as int,
            ),
    ensures
        on_edge(rect_run(m, w, h, moves(pts)).0, c0, d, k, lim, w, h),
        rect_run(m, w, h, moves(pts)).0.prev_x == if keeps_x(d, m.current_border) || pts.len() == 0 {
            m.prev_x
        } else {
            pts.last().0 as int
        },
        none_reported(rect_run(m, w, h, moves(pts)).1),
    decreases pts.len(),
{
    reveal(rect_run);
    if pts.len() > 0 {
        lemma_moves_first(pts);
        assert(edge_point(m.current_border, pts[0].0 as int, pts[0].1 as int, w, h));
        lemma_edge_next(m, c0, d, k, lim, pts[0].0, pts[0].1, w, h);
        let m1 = rect_step(m, w, h, moves(pts)[0]).0;
        assert(m1.current_border == m.current_border) by {
            reveal(on_edge);
        }
        let rest = pts.drop_first();
        assert forall|i: int| 0 <= i < rest.len() implies edge_point(m1.current_border, #[trigger] rest[i].0 as int, rest[i].1 as int, w, h) by {
            assert(rest[i] == pts[i + 1]);
        }
        assert forall|i: int| 0 <= i < rest.len() - 1 implies advances(
            d,
            m1.current_border,
            #[trigger] rest[i].0 as int,
            rest[i].1 as int,
            rest[i + 1].0 as int,
            rest[i + 1].1 as int,
        ) by {
            assert(rest[i] == pts[i + 1] && rest[i + 1] == pts[i + 2]);
        }
        if rest.len() > 0 {
            assert(rest[0] == pts[1]);
            assert(advances(d, m.current_border, pts[0].0 as int, pts[0].1 as int, pts[1].0 as int, pts[1].1 as int));
            assert(advances(d, m1.current_border, m1.prev_x, m1.prev_y, rest[0].0 as int, rest[0].1 as int));
            assert(rest.last() == pts.last());
        }
        lemma_edge_continue(m1, c0, d, k, lim, rest, w, h);
    } else {
        assert(moves(pts) =~= Seq::<MouseEvent>::empty());
    }
}

/// A stroke along edge `k` from the corner where it starts: the first point
/// sets off along the edge (fixing the direction when leaving the start
/// corner), the others follow it, and nothing is reported.
proof fn lemma_edge_stroke(m: RectangleModel, c0: Corner, d: Direction, k: int, lim: int, pts: Seq<(i32, i32)>, w: int, h: int)
    requires
        c0 != Corner::NoCorner,
        d != Direction::Unknown,
        0 <= k <= 3,
        in_corner(m, c0, d, k, lim, w, h),
        edge_stroke(d, border_after(d, corner_after(c0, d, k)), pts, w, h),
        k > 0 && keeps_x(d, border_after(d, corner_after(c0, d, k - 1))) ==> pts[0].0 <= lim,
    ensures
        ({
            let l1 = stroke_lim(d, k, border_after(d, corner_after(c0, d, k)), pts, lim);
            &&& on_edge(rect_run(m, w, h, moves(pts)).0, c0, d, k, l1, w, h)
            &&& rect_run(m, w, h, moves(pts)).0.prev_x == l1
            &&& none_reported(rect_run(m, w, h, moves(pts)).1)
        }),
{
    reveal(rect_run);
    reveal(on_edge);
    let b = border_after(d, corner_after(c0, d, k));
    lemma_moves_first(pts);
    assert(edge_point(b, pts[0].0 as int, pts[0].1 as int, w, h));
    lemma_edge_first(m, c0, d, k, lim, pts[0].0, pts[0].1, w, h);
    let l0 = if k == 0 { pts[0].0 as int } else { lim };
    let m1 = rect_step(m, w, h, moves(pts)[0]).0;
    assert(m1.current_border == b) by {
        reveal(on_edge);
    }
    let rest = pts.drop_first();
    assert forall|i: int| 0 <= i < rest.len() implies edge_point(m1.current_border, #[trigger] rest[i].0 as int, rest[i].1 as int, w, h) by {
        assert(rest[i] == pts[i + 1]);
    }
    assert forall|i: int| 0 <= i < rest.len() - 1 implies advances(
        d,
        m1.current_border,
        #[trigger] rest[i].0 as int,
        rest[i].1 as int,
        rest[i + 1].0 as int,
        rest[i + 1].1 as int,
    ) by {
        assert(rest[i] == pts[i + 1] && rest[i + 1] == pts[i + 2]);
    }
    if rest.len() > 0 {
        assert(rest[0] == pts[1]);
        assert(advances(d, b, pts[0].0 as int, pts[0].1 as int, pts[1].0 as int, pts[1].1 as int));
        assert(rest.last() == pts.last());
    }
    lemma_edge_continue(m1, c0, d, k, l0, rest, w, h);
}


proof fn lemma_close(m: RectangleModel, c0: Corner, d: Direction, lim: int, x: i32, y: i32, w: int, h: int)
    requires
        c0 != Corner::NoCorner,
        d != Direction::Unknown,
        on_edge(m, c0, d, 3, lim, w, h),
        corner_at(x as int, y as int, w, h) == c0,
    ensures
        rect_step(m, w, h, MouseEvent::MouseMove { x, y }).1,
{
    reveal(on_edge);
    lemma_corner_cycle(c0, d);
    assert(edge_end(d, border_after(d, corner_after(c0, d, 3))) == corner_after(c0, d, 4));
}

proof fn lemma_none_reported_append(a: Seq<bool>, b: Seq<bool>)
    requires
        none_reported(a),
        none_reported(b),
    ensures
        none_reported(a + b),
{
    assert forall|i: int| 0 <= i < (a + b).len() implies !#[trigger] (a + b)[i] by {
        if i < a.len() {
            assert((a + b)[i] == a[i]);
        } else {
            assert((a + b)[i] == b[i - a.len()]);
        }
    }
}

proof fn lemma_extend_edge(prefix: Seq<MouseEvent>, c0: Corner, d: Direction, k: int, lim: int, pts: Seq<(i32, i32)>, w: int, h: int)
    requires
        c0 != Corner::NoCorner,
        d != Direction::Unknown,
        0 <= k <= 3,
        in_corner(rect_run(rect_initial(), w, h, prefix).0, c0, d, k, lim, w, h),
        none_reported(rect_run(rect_initial(), w, h, prefix).1),
        edge_stroke(d, border_after(d, corner_after(c0, d, k)), pts, w, h),
        k > 0 && keeps_x(d, border_after(d, corner_after(c0, d, k - 1))) ==> pts[0].0 <= lim,
    ensures
        ({
            let l1 = stroke_lim(d, k, border_after(d, corner_after(c0, d, k)), pts, lim);
            let m1 = rect_run(rect_initial(), w, h, prefix + moves(pts)).0;
            &&& on_edge(m1, c0, d, k, l1, w, h)
            &&& m1.prev_x == l1
            &&& none_reported(rect_run(rect_initial(), w, h, prefix + moves(pts)).1)
        }),
{
    let m = rect_run(rect_initial(), w, h, prefix).0;
    lemma_rect_run_append(rect_initial(), w, h, prefix, moves(pts));
    lemma_edge_stroke(m, c0, d, k, lim, pts, w, h);
    lemma_none_reported_append(rect_run(rect_initial(), w, h, prefix).1, rect_run(m, w, h, moves(pts)).1);
}

proof fn lemma_extend_corner(prefix: Seq<MouseEvent>, c0: Corner, d: Direction, k: int, lim: int, pts: Seq<(i32, i32)>, w: int, h: int)
    requires
        c0 != Corner::NoCorner,
        d != Direction::Unknown,
        1 <= k <= 3,
        on_edge(rect_run(rect_initial(), w, h, prefix).0, c0, d, k - 1, lim, w, h),
        rect_run(rect_initial(), w, h, prefix).0.prev_x == lim,
        none_reported(rect_run(rect_initial(), w, h, prefix).1),
        corner_stay(corner_after(c0, d, k), pts, w, h),
    ensures
        in_corner(rect_run(rect_initial(), w, h, prefix + moves(pts)).0, c0, d, k, lim, w, h),
        none_reported(rect_run(rect_initial(), w, h, prefix + moves(pts)).1),
{
    let m = rect_run(rect_initial(), w, h, prefix).0;
    lemma_rect_run_append(rect_initial(), w, h, prefix, moves(pts));
    lemma_corner_stay(m, c0, d, k, lim, pts, w, h);
    lemma_none_reported_append(rect_run(rect_initial(), w, h, prefix).1, rect_run(m, w, h, moves(pts)).1);
}

/// Where the top stroke of a counter-clockwise trace starts, the recorded
/// horizontal position (from the strokes before it) is not to its left.
proof fn lemma_top_after_right(
    c0: Corner,
    d: Direction,
    corners: Seq<Seq<(i32, i32)>>,
    edges: Seq<Seq<(i32, i32)>>,
    last: (i32, i32),
    w: int,
    h: int,
    k: int,
    lim: int,
)
    requires
        rectangle_trace(c0, d, corners, edges, last, w, h),
        1 <= k <= 3,
        keeps_x(d, border_after(d, corner_after(c0, d, k - 1))),
        k == 1 ==> lim == edges[0][0].0,
        k >= 2 ==> lim == edges[k - 2].last().0,
    ensures
        edges[k][0].0 <= lim,
{
    let b = border_after(d, corner_after(c0, d, k));
    assert(edge_stroke(d, b, edges[k], w, h));
    assert(edge_point(b, edges[k][0].0 as int, edges[k][0].1 as int, w, h));
    if k == 1 {
        assert(edge_stroke(d, border_after(d, corner_after(c0, d, 0)), edges[0], w, h));
        assert(edge_point(Border::Right, edges[0][0].0 as int, edges[0][0].1 as int, w, h));
        assert(c0 == Corner::BottomRight) by {
            match c0 {
                Corner::TopLeft => {},
                Corner::TopRight => {},
                Corner::BottomRight => {},
                Corner::BottomLeft => {},
                Corner::NoCorner => {},
            }
        }
        assert(b == Border::Top);
    } else {
        assert(b == Border::Top) by {
            match c0 {
                Corner::TopLeft => {},
                Corner::TopRight => {},
                Corner::BottomRight => {},
                Corner::BottomLeft => {},
                Corner::NoCorner => {},
            }
        }
    }
}

/// The whole trace but its last move leaves the tracker on the fourth edge,
/// having reported nothing.
#[verifier::rlimit(100)]
proof fn lemma_trace_before_close(
    c0: Corner,
    d: Direction,
    corners: Seq<Seq<(i32, i32)>>,
    edges: Seq<Seq<(i32, i32)>>,
    last: (i32, i32),
    w: int,
    h: int,
) -> (lim: int)
    requires
        rectangle_trace(c0, d, corners, edges, last, w, h),
    ensures
        ({
            let p = moves(corners[0]) + moves(edges[0]) + moves(corners[1]) + moves(edges[1]) + moves(corners[2])
                + moves(edges[2]) + moves(corners[3]) + moves(edges[3]);
            &&& on_edge(rect_run(rect_initial(), w, h, p).0, c0, d, 3, lim, w, h)
            &&& none_reported(rect_run(rect_initial(), w, h, p).1)
        }),
{
    lemma_corner_cycle(c0, d);
    let b0 = border_after(d, corner_after(c0, d, 0));
    let b1 = border_after(d, corner_after(c0, d, 1));
    let b2 = border_after(d, corner_after(c0, d, 2));
    let b3 = border_after(d, corner_after(c0, d, 3));
    assert(corner_stay(corner_after(c0, d, 0), corners[0], w, h));
    assert(corner_stay(corner_after(c0, d, 1), corners[1], w, h));
    assert(corner_stay(corner_after(c0, d, 2), corners[2], w, h));
    assert(corner_stay(corner_after(c0, d, 3), corners[3], w, h));
    assert(edge_stroke(d, b0, edges[0], w, h));
    assert(edge_stroke(d, b1, edges[1], w, h));
    assert(edge_stroke(d, b2, edges[2], w, h));
    assert(edge_stroke(d, b3, edges[3], w, h));
    assert(!(keeps_x(d, b0) && keeps_x(d, b1)) && !(keeps_x(d, b1) && keeps_x(d, b2))) by {
        match c0 {
            Corner::TopLeft => {},
            Corner::TopRight => {},
            Corner::BottomRight => {},
            Corner::BottomLeft => {},
            Corner::NoCorner => {},
        }
    }
    let p0 = moves(corners[0]);
    lemma_start_stay(rect_initial(), c0, d, corners[0], w, h);
    let p1 = p0 + moves(edges[0]);
    lemma_extend_edge(p0, c0, d, 0, 0, edges[0], w, h);
    let l1 = stroke_lim(d, 0, b0, edges[0], 0);
    let p2 = p1 + moves(corners[1]);
    lemma_extend_corner(p1, c0, d, 1, l1, corners[1], w, h);
    if keeps_x(d, b0) {
        lemma_top_after_right(c0, d, corners, edges, last, w, h, 1, l1);
    }
    let p3 = p2 + moves(edges[1]);
    lemma_extend_edge(p2, c0, d, 1, l1, edges[1], w, h);
    let l2 = stroke_lim(d, 1, b1, edges[1], l1);
    let p4 = p3 + moves(corners[2]);
    lemma_extend_corner(p3, c0, d, 2, l2, corners[2], w, h);
    if keeps_x(d, b1) {
        lemma_top_after_right(c0, d, corners, edges, last, w, h, 2, l2);
    }
    let p5 = p4 + moves(edges[2]);
    lemma_extend_edge(p4, c0, d, 2, l2, edges[2], w, h);
    let l3 = stroke_lim(d, 2, b2, edges[2], l2);
    let p6 = p5 + moves(corners[3]);
    lemma_extend_corner(p5, c0, d, 3, l3, corners[3], w, h);
    if keeps_x(d, b2) {
        lemma_top_after_right(c0, d, corners, edges, last, w, h, 3, l3);
    }
    lemma_extend_edge(p6, c0, d, 3, l3, edges[3], w, h);
    stroke_lim(d, 3, b3, edges[3], l3)
}

/// Every rectangle traced round the screen is recognised: from a tracker
/// that has seen nothing, the events of a trace (a stay in each corner in
/// turn and a stroke along the edge that starts there, whatever the start
/// corner and direction, then a move back into the start corner) report a
/// rectangle exactly at the last event.
pub proof fn lemma_rectangle_trace_reported(
    c0: Corner,
    d: Direction,
    corners: Seq<Seq<(i32, i32)>>,
    edges: Seq<Seq<(i32, i32)>>,
    last: (i32, i32),
    w: int,
    h: int,
)
    requires
        rectangle_trace(c0, d, corners, edges, last, w, h),
    ensures
        ({
            let rs = rect_run(rect_initial(), w, h, trace_events(corners, edges, last)).1;
            &&& rs.len() == trace_events(corners, edges, last).len()
            &&& rs[rs.len() - 1]
            &&& forall|i: int| 0 <= i < rs.len() - 1 ==> !#[trigger] rs[i]
        }),
{
    let p7 = moves(corners[0]) + moves(edges[0]) + moves(corners[1]) + moves(edges[1]) + moves(corners[2])
        + moves(edges[2]) + moves(corners[3]) + moves(edges[3]);
    let e8 = seq![MouseEvent::MouseMove { x: last.0, y: last.1 }];
    let lim = lemma_trace_before_close(c0, d, corners, edges, last, w, h);
    let init = rect_initial();
    let m7 = rect_run(init, w, h, p7).0;
    let p8 = p7 + e8;
    assert(p8 == trace_events(corners, edges, last));
    lemma_rect_run_append(init, w, h, p7, e8);
    lemma_close(m7, c0, d, lim, last.0, last.1, w, h);
    let r7 = rect_run(init, w, h, p7).1;
    let tail = rect_run(m7, w, h, e8).1;
    assert(tail =~= seq![true]) by {
        reveal(rect_run);
        let ev = MouseEvent::MouseMove { x: last.0, y: last.1 };
        assert(e8[0] == ev);
        assert(e8.drop_first() =~= Seq::<MouseEvent>::empty());
        let m8 = rect_step(m7, w, h, ev).0;
        assert(rect_run(m8, w, h, Seq::<MouseEvent>::empty()).1 =~= Seq::<bool>::empty());
        assert(rect_step(m7, w, h, ev).1);
    }
    lemma_rect_run_length(init, w, h, p8);
    lemma_rect_run_length(init, w, h, p7);
    let rs = rect_run(init, w, h, p8).1;
    assert(rs == r7 + tail);
    assert(rs[rs.len() - 1] == tail[0]);
    assert forall|i: int| 0 <= i < rs.len() - 1 implies !#[trigger] rs[i] by {
        assert(rs[i] == r7[i]);
    }
}

/// A run reports once per event.
pub proof fn lemma_rect_run_length(m: RectangleModel, w: int, h: int, events: Seq<MouseEvent>)
    ensures
        rect_run(m, w, h, events).1.len() == events.len(),
    decreases events.len(),
{
    reveal(rect_run);
    if events.len() > 0 {
        lemma_rect_run_length(rect_step(m, w, h, events[0]).0, w, h, events.drop_first());
    }
}


/// Running a sequence and then one more event.
pub proof fn lemma_rect_run_push(m: RectangleModel, w: int, h: int, evs: Seq<MouseEvent>, e: MouseEvent)
    ensures
        rect_run(m, w, h, evs.push(e)).0 == rect_step(rect_run(m, w, h, evs).0, w, h, e).0,
        rect_run(m, w, h, evs.push(e)).1 == rect_run(m, w, h, evs).1.push(rect_step(rect_run(m, w, h, evs).0, w, h, e).1),
{
    lemma_rect_run_append(m, w, h, evs, seq![e]);
    assert(evs + seq![e] == evs.push(e));
    let m0 = rect_run(m, w, h, evs).0;
    assert(rect_run(m0, w, h, seq![e]).0 == rect_step(m0, w, h, e).0 && rect_run(m0, w, h, seq![e]).1 =~= seq![
        rect_step(m0, w, h, e).1,
    ]) by {
        reveal(rect_run);
        assert(seq![e].drop_first() =~= Seq::<MouseEvent>::empty());
        let m1 = rect_step(m0, w, h, e).0;
        assert(rect_run(m1, w, h, Seq::<MouseEvent>::empty()).1 =~= Seq::<bool>::empty());
    }
    assert(rect_run(m, w, h, evs).1 + seq![rect_step(m0, w, h, e).1] =~= rect_run(m, w, h, evs).1.push(
        rect_step(m0, w, h, e).1,
    ));
}

/// Every state reached from a fresh tracker is consistent.
pub proof fn lemma_rect_run_wf(w: int, h: int, evs: Seq<MouseEvent>)
    ensures
        rect_wf(rect_run(rect_initial(), w, h, evs).0),
    decreases evs.len(),
{
    if evs.len() == 0 {
        reveal(rect_run);
        lemma_rect_initial_wf();
    } else {
        let pre = evs.drop_last();
        lemma_rect_run_wf(w, h, pre);
        lemma_rect_run_push(rect_initial(), w, h, pre, evs.last());
        assert(pre.push(evs.last()) == evs);
        lemma_rect_step_preserves_wf(rect_run(rect_initial(), w, h, pre).0, w, h, evs.last());
    }
}


/// `e` is a pointer move into corner `c` (into no corner for `NoCorner`).
pub open spec fn move_into(e: MouseEvent, c: Corner, w: int, h: int) -> bool {
    e matches MouseEvent::MouseMove { x, y } && corner_at(x as int, y as int, w, h) == c
}

/// `e` is a pointer move within the tolerance of the line of edge `b`.
pub open spec fn move_on_line(e: MouseEvent, b: Border, w: int, h: int) -> bool {
    e matches MouseEvent::MouseMove { x, y } && on_edge_line(b, x as int, y as int, w, h)
}

/// Every pointer move strictly between positions `lo` and `hi` of `evs`
/// that is in no corner lies within the tolerance of the line of edge `b`.
pub open spec fn moves_on_line(evs: Seq<MouseEvent>, lo: int, hi: int, b: Border, w: int, h: int) -> bool {
    forall|j: int| lo < j < hi && move_into(#[trigger] evs[j], Corner::NoCorner, w, h) ==> move_on_line(evs[j], b, w, h)
}

/// Some pointer move strictly between positions `lo` and `hi` of `evs` is in
/// no corner.
pub open spec fn some_move_between(evs: Seq<MouseEvent>, lo: int, hi: int, w: int, h: int) -> bool {
    exists|j: int| lo < j < hi && move_into(#[trigger] evs[j], Corner::NoCorner, w, h)
}

/// Where the stretch after corner visit `k` ends: at the next visit, or at
/// the end of the events.
pub open spec fn stretch_end(idx: Seq<int>, k: int, n: int) -> int {
    if k + 1 < idx.len() {
        idx[k + 1]
    } else {
        n
    }
}

/// What the events `evs` did for the lap in order in state `m`: the
/// positions `idx` of the moves into the corners of the lap reached so far,
/// in order, the position `dj` of the first move along the first edge (once
/// there was one), and that, from then on, the moves away from the corners
/// stayed on the edge being followed and there was one before each corner
/// reached.
#[verifier::opaque]
pub open spec fn gesture_history(evs: Seq<MouseEvent>, m: RectangleModel, idx: Seq<int>, dj: int, w: int, h: int) -> bool {
    let n = evs.len() as int;
    let c0 = m.initial_corner;
    let d = m.direction;
    let cnt = idx.len() as int;
    m.in_order ==> {
        &&& cnt == m.lap_corners
        &&& forall|k: int| 0 <= k < cnt ==> 0 <= #[trigger] idx[k] < n
        &&& forall|k: int| 0 <= k < cnt - 1 ==> #[trigger] idx[k] < idx[k + 1]
        &&& forall|k: int| 0 <= k < cnt ==> move_into(evs[#[trigger] idx[k]], corner_after(c0, d, k), w, h)
        &&& d != Direction::Unknown && cnt == 1 && !m.side_moved ==> moves_on_line(evs, idx[0], n, border_after(d, c0), w, h)
        &&& d != Direction::Unknown && (cnt > 1 || m.side_moved) ==> {
            &&& idx[0] < dj < n
            &&& cnt > 1 ==> dj < idx[1]
            &&& move_into(evs[dj], Corner::NoCorner, w, h)
            &&& move_on_line(evs[dj], border_after(d, c0), w, h)
            &&& moves_on_line(evs, dj, stretch_end(idx, 0, n), border_after(d, c0), w, h)
        }
        &&& forall|k: int|
            1 <= k < cnt ==> moves_on_line(evs, #[trigger] idx[k], stretch_end(idx, k, n), border_after(d, corner_after(c0, d, k)), w, h)
        &&& forall|k: int| 1 <= k < cnt ==> some_move_between(evs, idx[k - 1], #[trigger] idx[k], w, h)
        &&& m.side_moved ==> some_move_between(evs, idx[cnt - 1], n, w, h)
    }
}

/// What one event can do to a consistent tracker, as far as a lap in order
/// goes: start one with a move into the start corner; reach the next corner
/// after a move along the edge; fix the direction with a move on an adjacent
/// edge; or keep the lap and direction, accepting a move away from the
/// corners only on the edge being followed.
proof fn lemma_step_cases(m0: RectangleModel, w: int, h: int, e: MouseEvent)
    requires
        rect_wf(m0),
    ensures
        ({
            let m1 = rect_step(m0, w, h, e).0;
            &&& m1.in_order && m0.in_order ==> m1.count_corners == m0.count_corners || m1.count_corners
                == m0.count_corners + 1
            &&& m1.in_order && (!m0.in_order || (m1.count_corners == m0.count_corners + 1 && m1.lap_corners == 1)) ==> {
                &&& move_into(e, m1.initial_corner, w, h)
                &&& m1.lap_corners == 1
                &&& !m1.side_moved
            }
            &&& m1.in_order && m0.in_order && m1.count_corners == m0.count_corners + 1 && m1.lap_corners != 1 ==> {
                &&& m1.initial_corner == m0.initial_corner
                &&& m1.lap_corners == m0.lap_corners + 1
                &&& m0.direction != Direction::Unknown
                &&& m1.direction == m0.direction
                &&& m0.side_moved
                &&& !m1.side_moved
                &&& move_into(e, corner_after(m0.initial_corner, m0.direction, m0.lap_corners), w, h)
            }
            &&& m1.in_order && m0.in_order && m1.count_corners == m0.count_corners && m0.direction == Direction::Unknown
                && m1.direction != Direction::Unknown ==> {
                &&& m1.initial_corner == m0.initial_corner
                &&& m0.lap_corners == 1
                &&& m1.lap_corners == 1
                &&& m1.side_moved
                &&& move_into(e, Corner::NoCorner, w, h)
                &&& move_on_line(e, border_after(m1.direction, m0.initial_corner), w, h)
            }
            &&& m1.in_order && m0.in_order && m1.count_corners == m0.count_corners && !(m0.direction
                == Direction::Unknown && m1.direction != Direction::Unknown) ==> {
                &&& m1.initial_corner == m0.initial_corner
                &&& m1.lap_corners == m0.lap_corners
                &&& m1.direction == m0.direction
                &&& m0.side_moved ==> m1.side_moved
                &&& m1.side_moved ==> (m0.side_moved || move_into(e, Corner::NoCorner, w, h))
                &&& m0.direction != Direction::Unknown && move_into(e, Corner::NoCorner, w, h) ==> move_on_line(
                    e,
                    m0.current_border,
                    w,
                    h,
                )
            }
        }),
{
    if let MouseEvent::MouseMove { x, y } = e {
        let c = corner_at(x as int, y as int, w, h);
        if c != Corner::NoCorner && !m0.corner_reached {
        } else if m0.is_rectangle && m0.direction == Direction::Unknown && c == Corner::NoCorner {
            lemma_choose_cases(m0, x as int, y as int, w, h);
        } else if m0.is_rectangle && m0.direction != Direction::Unknown && c == Corner::NoCorner {
            if m0.in_order {
                lemma_follow_cases(m0, x as int, y as int, w, h);
            }
        } else {
            if m0.in_order && m0.direction != Direction::Unknown {
                lemma_corner_cycle(m0.initial_corner, m0.direction);
                assert(edge_end(m0.direction, m0.current_border) == corner_after(
                    m0.initial_corner,
                    m0.direction,
                    m0.lap_corners,
                ));
            }
        }
    }
}

proof fn lemma_choose_cases(m0: RectangleModel, x: int, y: int, w: int, h: int)
    requires
        rect_wf(m0),
        m0.is_rectangle,
        m0.direction == Direction::Unknown,
        corner_at(x, y, w, h) == Corner::NoCorner,
    ensures
        ({
            let m1 = crate::tracker::rect_choose_direction(m0, x, y, w, h);
            &&& m1.is_rectangle
            &&& m1.in_order
            &&& m1.initial_corner == m0.initial_corner
            &&& m1.count_corners == m0.count_corners
            &&& m1.lap_corners == m0.lap_corners
            &&& m1.direction == Direction::Unknown ==> !m1.side_moved
            &&& m1.direction != Direction::Unknown ==> m1.side_moved && on_edge_line(
                border_after(m1.direction, m0.initial_corner),
                x,
                y,
                w,
                h,
            )
        }),
{
    match m0.initial_corner {
        Corner::TopLeft => {},
        Corner::TopRight => {},
        Corner::BottomRight => {},
        Corner::BottomLeft => {},
        Corner::NoCorner => {},
    }
}

#[verifier::rlimit(50)]
proof fn lemma_follow_cases(m0: RectangleModel, x: int, y: int, w: int, h: int)
    requires
        rect_wf(m0),
        m0.in_order,
        m0.direction != Direction::Unknown,
    ensures
        ({
            let m1 = crate::tracker::rect_follow(m0, x, y, w, h);
            &&& m1.in_order ==> {
                &&& m1.initial_corner == m0.initial_corner
                &&& m1.count_corners == m0.count_corners
                &&& m1.lap_corners == m0.lap_corners
                &&& m1.direction == m0.direction
                &&& m1.side_moved
                &&& on_edge_line(m0.current_border, x, y, w, h)
            }
        }),
{
    lemma_corner_cycle(m0.initial_corner, m0.direction);
    assert(m0.current_border != Border::NoBorder) by {
        match m0.direction {
            Direction::Clockwise => {},
            _ => {},
        }
    }
    match m0.direction {
        Direction::Clockwise => match m0.current_border {
            Border::Top => {},
            Border::Right => {},
            Border::Bottom => {},
            Border::Left => {},
            Border::NoBorder => {},
        },
        _ => match m0.current_border {
            Border::Top => {},
            Border::Right => {},
            Border::Bottom => {},
            Border::Left => {},
            Border::NoBorder => {},
        },
    }
}


proof fn lemma_lines_push(pre: Seq<MouseEvent>, e: MouseEvent, lo: int, hi: int, b: Border, w: int, h: int)
    requires
        0 <= lo,
        hi <= pre.len(),
        moves_on_line(pre, lo, hi, b, w, h),
    ensures
        moves_on_line(pre.push(e), lo, hi, b, w, h),
{
    assert forall|j: int| lo < j < hi && move_into(#[trigger] pre.push(e)[j], Corner::NoCorner, w, h) implies move_on_line(
        pre.push(e)[j],
        b,
        w,
        h,
    ) by {
        assert(pre.push(e)[j] == pre[j]);
    }
}

proof fn lemma_lines_extend(pre: Seq<MouseEvent>, e: MouseEvent, lo: int, b: Border, w: int, h: int)
    requires
        0 <= lo,
        moves_on_line(pre, lo, pre.len() as int, b, w, h),
        move_into(e, Corner::NoCorner, w, h) ==> move_on_line(e, b, w, h),
    ensures
        moves_on_line(pre.push(e), lo, pre.len() as int + 1, b, w, h),
{
    assert forall|j: int| lo < j < pre.len() + 1 && move_into(#[trigger] pre.push(e)[j], Corner::NoCorner, w, h) implies move_on_line(
        pre.push(e)[j],
        b,
        w,
        h,
    ) by {
        if j < pre.len() {
            assert(pre.push(e)[j] == pre[j]);
        }
    }
}

proof fn lemma_some_push(pre: Seq<MouseEvent>, e: MouseEvent, lo: int, hi: int, hi2: int, w: int, h: int)
    requires
        0 <= lo,
        hi <= pre.len(),
        hi <= hi2,
        some_move_between(pre, lo, hi, w, h),
    ensures
        some_move_between(pre.push(e), lo, hi2, w, h),
{
    let j = choose|j: int| lo < j < hi && move_into(#[trigger] pre[j], Corner::NoCorner, w, h);
    assert(pre.push(e)[j] == pre[j]);
}

#[verifier::rlimit(60)]
proof fn lemma_history_turn(
    pre: Seq<MouseEvent>,
    e: MouseEvent,
    m0: RectangleModel,
    m1: RectangleModel,
    idx0: Seq<int>,
    dj0: int,
    w: int,
    h: int,
)
    requires
        gesture_history(pre, m0, idx0, dj0, w, h),
        rect_wf(m0),
        m0.in_order,
        m1.in_order,
        m1.initial_corner == m0.initial_corner,
        m1.lap_corners == m0.lap_corners + 1,
        m0.direction != Direction::Unknown,
        m1.direction == m0.direction,
        m0.side_moved,
        !m1.side_moved,
        move_into(e, corner_after(m0.initial_corner, m0.direction, m0.lap_corners), w, h),
    ensures
        gesture_history(pre.push(e), m1, idx0.push(pre.len() as int), dj0, w, h),
{
    reveal(gesture_history);
    let evs = pre.push(e);
    let n = pre.len() as int;
    let c0 = m0.initial_corner;
    let d = m0.direction;
    let cnt = idx0.len() as int;
    let idx = idx0.push(n);
    assert(evs[n] == e);
    assert forall|k: int| 0 <= k < cnt + 1 implies move_into(evs[#[trigger] idx[k]], corner_after(c0, d, k), w, h) by {
        if k < cnt {
            assert(idx[k] == idx0[k]);
            assert(evs[idx0[k]] == pre[idx0[k]]);
        }
    }
    assert forall|k: int| 0 <= k < cnt + 1 - 1 implies #[trigger] idx[k] < idx[k + 1] by {
        if k + 1 < cnt {
            assert(idx[k] == idx0[k] && idx[k + 1] == idx0[k + 1]);
        }
    }
    assert forall|k: int| 0 <= k < cnt + 1 implies 0 <= #[trigger] idx[k] < n + 1 by {
        if k < cnt {
            assert(idx[k] == idx0[k]);
        }
    }
    if cnt > 1 {
        assert(idx[1] == idx0[1]);
    } else {
        assert(idx[1] == n);
    }
    assert(stretch_end(idx, 0, n + 1) == stretch_end(idx0, 0, n));
    lemma_lines_push(pre, e, dj0, stretch_end(idx0, 0, n), border_after(d, c0), w, h);
    assert(evs[dj0] == pre[dj0]);
    assert forall|k: int| 1 <= k < cnt + 1 implies moves_on_line(
        evs,
        #[trigger] idx[k],
        stretch_end(idx, k, n + 1),
        border_after(d, corner_after(c0, d, k)),
        w,
        h,
    ) by {
        if k < cnt {
            assert(idx[k] == idx0[k]);
            if k + 1 < cnt {
                assert(idx[k + 1] == idx0[k + 1]);
            } else {
                assert(idx[k + 1] == n);
            }
            assert(stretch_end(idx, k, n + 1) == stretch_end(idx0, k, n));
            lemma_lines_push(pre, e, idx0[k], stretch_end(idx0, k, n), border_after(d, corner_after(c0, d, k)), w, h);
        }
    }
    assert forall|k: int| 1 <= k < cnt + 1 implies some_move_between(evs, idx[k - 1], #[trigger] idx[k], w, h) by {
        if k < cnt {
            assert(idx[k] == idx0[k] && idx[k - 1] == idx0[k - 1]);
            lemma_some_push(pre, e, idx0[k - 1], idx0[k], idx0[k], w, h);
        } else {
            assert(idx[k - 1] == idx0[cnt - 1]);
            lemma_some_push(pre, e, idx0[cnt - 1], n, n, w, h);
        }
    }
}

proof fn lemma_history_choose(
    pre: Seq<MouseEvent>,
    e: MouseEvent,
    m0: RectangleModel,
    m1: RectangleModel,
    idx0: Seq<int>,
    dj0: int,
    w: int,
    h: int,
)
    requires
        gesture_history(pre, m0, idx0, dj0, w, h),
        m0.in_order,
        m1.in_order,
        m1.initial_corner == m0.initial_corner,
        m0.direction == Direction::Unknown,
        m1.direction != Direction::Unknown,
        m0.lap_corners == 1,
        m1.lap_corners == 1,
        m1.side_moved,
        move_into(e, Corner::NoCorner, w, h),
        move_on_line(e, border_after(m1.direction, m0.initial_corner), w, h),
    ensures
        gesture_history(pre.push(e), m1, idx0, pre.len() as int, w, h),
{
    reveal(gesture_history);
    let evs = pre.push(e);
    let n = pre.len() as int;
    let c0 = m0.initial_corner;
    let d = m1.direction;
    assert(evs[n] == e);
    assert(corner_after(c0, d, 0) == c0);
    assert(corner_after(c0, Direction::Unknown, 0) == c0);
    assert(evs[idx0[0]] == pre[idx0[0]]);
    assert(move_into(evs[idx0[0]], corner_after(c0, d, 0), w, h));
    assert(stretch_end(idx0, 0, n + 1) == n + 1);
    assert(moves_on_line(evs, n, n + 1, border_after(d, c0), w, h));
    assert(some_move_between(evs, idx0[0], n + 1, w, h)) by {
        assert(move_into(evs[n], Corner::NoCorner, w, h));
    }
}

proof fn lemma_history_stay(
    pre: Seq<MouseEvent>,
    e: MouseEvent,
    m0: RectangleModel,
    m1: RectangleModel,
    idx0: Seq<int>,
    dj0: int,
    w: int,
    h: int,
) -> (dj: int)
    requires
        gesture_history(pre, m0, idx0, dj0, w, h),
        rect_wf(m0),
        m0.in_order,
        m1.in_order,
        m1.initial_corner == m0.initial_corner,
        m1.lap_corners == m0.lap_corners,
        m1.direction == m0.direction,
        m0.side_moved ==> m1.side_moved,
        m1.side_moved ==> (m0.side_moved || move_into(e, Corner::NoCorner, w, h)),
        m0.direction != Direction::Unknown && move_into(e, Corner::NoCorner, w, h) ==> move_on_line(e, m0.current_border, w, h),
    ensures
        gesture_history(pre.push(e), m1, idx0, dj, w, h),
{
    reveal(gesture_history);
    let evs = pre.push(e);
    let n = pre.len() as int;
    let c0 = m0.initial_corner;
    let d = m0.direction;
    let cnt = idx0.len() as int;
    assert(evs[n] == e);
    assert forall|k: int| 0 <= k < cnt implies move_into(evs[#[trigger] idx0[k]], corner_after(c0, d, k), w, h) by {
        assert(evs[idx0[k]] == pre[idx0[k]]);
    }
    let dj = if d != Direction::Unknown && cnt == 1 && !m0.side_moved && m1.side_moved {
        n
    } else {
        dj0
    };
    if d != Direction::Unknown {
        assert(corner_after(c0, d, 0) == c0);
        if cnt == 1 && !m0.side_moved {
            if m1.side_moved {
                assert(move_into(evs[n], Corner::NoCorner, w, h));
                assert(idx0[0] < n);
            } else {
                lemma_lines_extend(pre, e, idx0[0], border_after(d, c0), w, h);
            }
        } else {
            assert(evs[dj0] == pre[dj0]);
            if cnt == 1 {
                lemma_lines_extend(pre, e, dj0, border_after(d, c0), w, h);
            } else {
                lemma_lines_push(pre, e, dj0, stretch_end(idx0, 0, n), border_after(d, c0), w, h);
                lemma_lines_extend(pre, e, idx0[cnt - 1], m0.current_border, w, h);
            }
        }
    }
    assert forall|k: int| 1 <= k < cnt implies moves_on_line(
        evs,
        #[trigger] idx0[k],
        stretch_end(idx0, k, n + 1),
        border_after(d, corner_after(c0, d, k)),
        w,
        h,
    ) by {
        if k < cnt - 1 {
            lemma_lines_push(pre, e, idx0[k], idx0[k + 1], border_after(d, corner_after(c0, d, k)), w, h);
        }
    }
    assert forall|k: int| 1 <= k < cnt implies some_move_between(evs, idx0[k - 1], #[trigger] idx0[k], w, h) by {
        lemma_some_push(pre, e, idx0[k - 1], idx0[k], idx0[k], w, h);
    }
    if m1.side_moved {
        if m0.side_moved {
            lemma_some_push(pre, e, idx0[cnt - 1], n, n + 1, w, h);
        } else {
            assert(move_into(evs[n], Corner::NoCorner, w, h));
        }
    }
    dj
}

/// The history of the lap in order after any events from a fresh tracker.
proof fn lemma_history(w: int, h: int, evs: Seq<MouseEvent>) -> (r: (Seq<int>, int))
    ensures
        gesture_history(evs, rect_run(rect_initial(), w, h, evs).0, r.0, r.1, w, h),
    decreases evs.len(),
{
    if evs.len() == 0 {
        reveal(rect_run);
        reveal(gesture_history);
        (seq![], 0)
    } else {
        let pre = evs.drop_last();
        let e = evs.last();
        let n = pre.len() as int;
        let (idx0, dj0) = lemma_history(w, h, pre);
        lemma_rect_run_wf(w, h, pre);
        lemma_rect_run_push(rect_initial(), w, h, pre, e);
        assert(pre.push(e) =~= evs);
        let m0 = rect_run(rect_initial(), w, h, pre).0;
        let m1 = rect_step(m0, w, h, e).0;
        lemma_step_cases(m0, w, h, e);
        if !m1.in_order {
            reveal(gesture_history);
            (seq![], 0)
        } else if !m0.in_order || (m1.count_corners == m0.count_corners + 1 && m1.lap_corners == 1) {
            reveal(gesture_history);
            let idx = seq![n];
            assert(idx[0] == n);
            assert(pre.push(e)[n] == e);
            assert(corner_after(m1.initial_corner, m1.direction, 0) == m1.initial_corner);
            assert(moves_on_line(pre.push(e), n, n + 1, border_after(m1.direction, m1.initial_corner), w, h));
            (idx, n)
        } else if m1.count_corners == m0.count_corners + 1 {
            lemma_history_turn(pre, e, m0, m1, idx0, dj0, w, h);
            (idx0.push(n), dj0)
        } else if m0.direction == Direction::Unknown && m1.direction != Direction::Unknown {
            lemma_history_choose(pre, e, m0, m1, idx0, dj0, w, h);
            (idx0, n)
        } else {
            let dj = lemma_history_stay(pre, e, m0, m1, idx0, dj0, w, h);
            (idx0, dj)
        }
    }
}


/// The events `evs` went round the screen from corner `c0` in direction `d`
/// and back: the moves at positions `idx` enter the five corners of the way
/// round in order (the last one being the last event, into `c0` again); the
/// move at `dj` left the start corner along the first edge; from it on, every
/// move away from the corners lay on the edge being followed; and before each
/// corner after the start there was such a move.
pub open spec fn went_round(evs: Seq<MouseEvent>, c0: Corner, d: Direction, idx: Seq<int>, dj: int, w: int, h: int) -> bool {
    &&& c0 != Corner::NoCorner
    &&& d != Direction::Unknown
    &&& idx.len() == 5
    &&& 0 <= idx[0]
    &&& idx[4] == evs.len() - 1
    &&& forall|k: int| 0 <= k < 4 ==> #[trigger] idx[k] < idx[k + 1]
    &&& forall|k: int| 0 <= k <= 4 ==> move_into(evs[#[trigger] idx[k]], corner_after(c0, d, k), w, h)
    &&& idx[0] < dj < idx[1]
    &&& move_into(evs[dj], Corner::NoCorner, w, h)
    &&& move_on_line(evs[dj], border_after(d, c0), w, h)
    &&& moves_on_line(evs, dj, idx[1], border_after(d, c0), w, h)
    &&& forall|k: int| 1 <= k < 4 ==> moves_on_line(evs, #[trigger] idx[k], idx[k + 1], border_after(d, corner_after(c0, d, k)), w, h)
    &&& forall|k: int| 0 <= k < 4 ==> some_move_between(evs, #[trigger] idx[k], idx[k + 1], w, h)
}

#[verifier::rlimit(60)]
proof fn lemma_went_round_from_history(
    pre: Seq<MouseEvent>,
    e: MouseEvent,
    m0: RectangleModel,
    idx0: Seq<int>,
    dj0: int,
    w: int,
    h: int,
)
    requires
        gesture_history(pre, m0, idx0, dj0, w, h),
        rect_wf(m0),
        m0.in_order,
        m0.side_moved,
        m0.direction != Direction::Unknown,
        m0.lap_corners == 4,
        move_into(e, m0.initial_corner, w, h),
    ensures
        went_round(pre.push(e), m0.initial_corner, m0.direction, idx0.push(pre.len() as int), dj0, w, h),
{
    let evs = pre.push(e);
    let n = pre.len() as int;
    let c0 = m0.initial_corner;
    let d = m0.direction;
    lemma_corner_cycle(c0, d);
    reveal(gesture_history);
    let idx = idx0.push(n);
    assert(evs[n] == e);
    assert(corner_after(c0, d, 4) == c0);
    assert forall|k: int| 0 <= k <= 4 implies move_into(evs[#[trigger] idx[k]], corner_after(c0, d, k), w, h) by {
        if k < 4 {
            assert(idx[k] == idx0[k]);
            assert(evs[idx0[k]] == pre[idx0[k]]);
        }
    }
    assert forall|k: int| 0 <= k < 4 implies #[trigger] idx[k] < idx[k + 1] by {
        if k + 1 < 4 {
            assert(idx[k] == idx0[k] && idx[k + 1] == idx0[k + 1]);
        }
    }
    assert(idx[0] == idx0[0] && idx[1] == idx0[1]);
    assert(evs[dj0] == pre[dj0]);
    assert(stretch_end(idx0, 0, n) == idx[1]);
    lemma_lines_push(pre, e, dj0, idx0[1], border_after(d, c0), w, h);
    assert forall|k: int| 1 <= k < 4 implies moves_on_line(
        evs,
        #[trigger] idx[k],
        idx[k + 1],
        border_after(d, corner_after(c0, d, k)),
        w,
        h,
    ) by {
        assert(idx[k] == idx0[k]);
        assert(stretch_end(idx0, k, n) == idx[k + 1]);
        lemma_lines_push(pre, e, idx0[k], idx[k + 1], border_after(d, corner_after(c0, d, k)), w, h);
    }
    assert forall|k: int| 0 <= k < 4 implies some_move_between(evs, #[trigger] idx[k], idx[k + 1], w, h) by {
        assert(idx[k] == idx0[k]);
        if k + 1 < 4 {
            assert(idx[k + 1] == idx0[k + 1]);
            lemma_some_push(pre, e, idx0[k], idx0[k + 1], idx0[k + 1], w, h);
        } else {
            lemma_some_push(pre, e, idx0[3], n, n, w, h);
        }
    }
}

/// Only a rectangle traced round the screen is recognised: whenever events
/// from a fresh tracker report a rectangle at their last event, they went
/// round the screen from some corner in some direction and back into it
/// along the four edges, in the sense of `went_round` (the five corners
/// entered are the start corner, the three others in order, and the start
/// corner again, see `lemma_corner_cycle`).
pub proof fn lemma_reported_rectangle_went_round(w: int, h: int, evs: Seq<MouseEvent>)
    requires
        evs.len() > 0,
        rect_run(rect_initial(), w, h, evs).1[evs.len() - 1],
    ensures
        exists|c0: Corner, d: Direction, idx: Seq<int>, dj: int| went_round(evs, c0, d, idx, dj, w, h),
{
    let pre = evs.drop_last();
    let e = evs.last();
    let n = pre.len() as int;
    let (idx0, dj0) = lemma_history(w, h, pre);
    lemma_rect_run_wf(w, h, pre);
    lemma_rect_run_push(rect_initial(), w, h, pre, e);
    assert(pre.push(e) =~= evs);
    lemma_rect_run_length(rect_initial(), w, h, pre);
    let m0 = rect_run(rect_initial(), w, h, pre).0;
    assert(rect_step(m0, w, h, e).1);
    lemma_rect_completion(m0, w, h, e);
    lemma_went_round_from_history(pre, e, m0, idx0, dj0, w, h);
    assert(went_round(evs, m0.initial_corner, m0.direction, idx0.push(n), dj0, w, h));
}

/// The screen bound that a move along edge `b` in direction `d` must respect:
/// going right it stays left of the screen's right side `w`, going left it
/// stays at or (along the bottom) right of the left side, going down it stays
/// above the bottom `h`, and going up below the top.
pub open spec fn edge_bound(d: Direction, b: Border, x: int, y: int, w: int, h: int) -> bool {
    match d {
        Direction::Clockwise => match b {
            Border::Top => x < w,
            Border::Right => y < h,
            Border::Bottom => x > 0,
            Border::Left => y > 0,
            Border::NoBorder => false,
        },
        Direction::CounterClockwise => match b {
            Border::Top => x >= 0,
            Border::Right => y > 0,
            Border::Bottom => x < w,
            Border::Left => y < h,
            Border::NoBorder => false,
        },
        Direction::Unknown => false,
    }
}

/// Once the direction is known, a move away from the corners is checked
/// against the edge being followed: the gesture goes on exactly when the move
/// lies on that edge's line, does not go back against the direction (see
/// `advances`) and respects the screen bound (see `edge_bound`); it then
/// records the new height and, except going up the right edge
/// counter-clockwise, the new horizontal position. Otherwise the gesture is
/// abandoned: nothing counted, no direction, the edge and the corners kept.
/// Such a move never reports a rectangle.
pub proof fn lemma_edge_move_checked(m: RectangleModel, w: int, h: int, x: i32, y: i32)
    requires
        rect_wf(m),
        m.is_rectangle,
        m.direction != Direction::Unknown,
        corner_at(x as int, y as int, w, h) == Corner::NoCorner,
    ensures
        ({
            let (m1, r) = rect_step(m, w, h, MouseEvent::MouseMove { x, y });
            let d = m.direction;
            let b = m.current_border;
            &&& !r
            &&& m1.is_rectangle <==> (on_edge_line(b, x as int, y as int, w, h) && advances(
                d,
                b,
                m.prev_x,
                m.prev_y,
                x as int,
                y as int,
            ) && edge_bound(d, b, x as int, y as int, w, h))
            &&& m1.is_rectangle ==> {
                &&& m1.direction == d
                &&& m1.current_border == b
                &&& m1.count_corners == m.count_corners
                &&& m1.initial_corner == m.initial_corner
                &&& m1.last_corner == m.last_corner
                &&& m1.prev_y == y
                &&& m1.prev_x == if keeps_x(d, b) { m.prev_x } else { x as int }
            }
            &&& !m1.is_rectangle ==> {
                &&& m1.direction == Direction::Unknown
                &&& m1.count_corners == 0
                &&& !m1.corner_reached
                &&& !m1.flag_fine
                &&& m1.current_border == b
                &&& m1.initial_corner == m.initial_corner
                &&& m1.last_corner == m.last_corner
                &&& m1.prev_x == m.prev_x
                &&& m1.prev_y == m.prev_y
            }
        }),
{
    match m.direction {
        Direction::Clockwise => match m.current_border {
            Border::Top => {},
            Border::Right => {},
            Border::Bottom => {},
            Border::Left => {},
            Border::NoBorder => {},
        },
        _ => match m.current_border {
            Border::Top => {},
            Border::Right => {},
            Border::Bottom => {},
            Border::Left => {},
            Border::NoBorder => {},
        },
    }
}

} // verus!
