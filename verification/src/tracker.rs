use vstd::prelude::*;

verus! {

/// Distance in pixels within which a pointer position counts as lying on a
/// screen edge (strictly closer than this).
pub const TOLERANCE: i64 = 50;

/// A side of the screen.
#[derive(Clone, Copy, Debug, PartialEq, Eq, Structural)]
pub enum Border {
    NoBorder,
    Top,
    Right,
    Bottom,
    Left,
}

/// A corner of the screen.
#[derive(Clone, Copy, Debug, PartialEq, Eq, Structural)]
pub enum Corner {
    NoCorner,
    TopLeft,
    TopRight,
    BottomLeft,
    BottomRight,
}

/// The sense in which the rectangle is being traced.
#[derive(Clone, Copy, Debug, PartialEq, Eq, Structural)]
pub enum Direction {
    Unknown,
    Clockwise,
    CounterClockwise,
}

/// An input event as the trackers see it: a pointer move to a position in
/// whole screen pixels, or anything else (keys, buttons, wheel).
#[derive(Clone, Copy, Debug, PartialEq, Eq, Structural)]
pub enum MouseEvent {
    MouseMove { x: i32, y: i32 },
    Other,
}

/// `a` and `b` are closer than the tolerance.
pub open spec fn near(a: int, b: int) -> bool {
    -TOLERANCE < a - b < TOLERANCE
}

/// The corner whose tolerance square holds `(x, y)` on a `w` x `h` screen,
/// tried in the order top-left, top-right, bottom-left, bottom-right.
pub open spec fn corner_at(x: int, y: int, w: int, h: int) -> Corner {
    if near(x, 0) && near(y, 0) {
        Corner::TopLeft
    } else if near(x, w) && near(y, 0) {
        Corner::TopRight
    } else if near(x, 0) && near(y, h) {
        Corner::BottomLeft
    } else if near(x, w) && near(y, h) {
        Corner::BottomRight
    } else {
        Corner::NoCorner
    }
}

fn is_near(a: i64, b: i64) -> (r: bool)
    requires
        -0x1_0000_0000 <= a <= 0x1_0000_0000,
        -0x1_0000_0000 <= b <= 0x1_0000_0000,
    ensures
        r == near(a as int, b as int),
{
    let d: i64 = a - b;
    -TOLERANCE < d && d < TOLERANCE
}

/// Which corner of the screen the pointer is in.
fn detect_corner(x: i32, y: i32, screen_width: u32, screen_height: u32) -> (c: Corner)
    ensures
        c == corner_at(x as int, y as int, screen_width as int, screen_height as int),
{
    let x: i64 = x as i64;
    let y: i64 = y as i64;
    let w: i64 = screen_width as i64;
    let h: i64 = screen_height as i64;
    if is_near(x, 0) && is_near(y, 0) {
        Corner::TopLeft
    } else if is_near(x, w) && is_near(y, 0) {
        Corner::TopRight
    } else if is_near(x, 0) && is_near(y, h) {
        Corner::BottomLeft
    } else if is_near(x, w) && is_near(y, h) {
        Corner::BottomRight
    } else {
        Corner::NoCorner
    }
}


/// The state of a rectangle gesture, as the contracts speak of it.
pub struct RectangleModel {
    pub is_rectangle: bool,
    pub prev_x: int,
    pub prev_y: int,
    pub current_border: Border,
    pub direction: Direction,
    pub corner_reached: bool,
    pub initial_x: int,
    pub initial_y: int,
    pub initial_corner: Corner,
    pub flag_fine: bool,
    pub count_corners: int,
    pub last_corner: Corner,
    /// The corners counted so far were reached one after the other going
    /// round from the start corner, each along the edge that ends there.
    pub in_order: bool,
    /// The pointer has moved along an edge since the gesture left the last
    /// corner counted.
    pub side_moved: bool,
    /// How many corners of the current lap round the screen were reached in
    /// turn, the start corner included.
    pub lap_corners: int,
}

/// Follows the pointer along the four screen edges and reports when it has
/// gone round the screen back to the corner it started from.
pub struct RectangleTracker {
    is_rectangle: bool,
    prev_x: i32,
    prev_y: i32,
    current_border: Border,
    direction: Direction,
    corner_reached: bool,
    initial_x: i32,
    initial_y: i32,
    initial_corner: Corner,
    flag_fine: bool,
    count_corners: i32,
    last_corner: Corner,
    in_order: bool,
    side_moved: bool,
    lap_corners: i32,
}

impl View for RectangleTracker {
    type V = RectangleModel;

    closed spec fn view(&self) -> RectangleModel {
        RectangleModel {
            is_rectangle: self.is_rectangle,
            prev_x: self.prev_x as int,
            prev_y: self.prev_y as int,
            current_border: self.current_border,
            direction: self.direction,
            corner_reached: self.corner_reached,
            initial_x: self.initial_x as int,
            initial_y: self.initial_y as int,
            initial_corner: self.initial_corner,
            flag_fine: self.flag_fine,
            count_corners: self.count_corners as int,
            last_corner: self.last_corner,
            in_order: self.in_order,
            side_moved: self.side_moved,
            lap_corners: self.lap_corners as int,
        }
    }
}

/// A tracker that has seen nothing yet.
pub open spec fn rect_initial() -> RectangleModel {
    RectangleModel {
        is_rectangle: false,
        prev_x: 0,
        prev_y: 0,
        current_border: Border::NoBorder,
        direction: Direction::Unknown,
        corner_reached: false,
        initial_x: 0,
        initial_y: 0,
        initial_corner: Corner::NoCorner,
        flag_fine: false,
        count_corners: 0,
        last_corner: Corner::NoCorner,
        in_order: false,
        side_moved: false,
        lap_corners: 0,
    }
}

/// The corner reached after `c` when going round the screen in direction `d`.
pub open spec fn next_corner(d: Direction, c: Corner) -> Corner {
    match d {
        Direction::Clockwise => match c {
            Corner::TopLeft => Corner::TopRight,
            Corner::TopRight => Corner::BottomRight,
            Corner::BottomRight => Corner::BottomLeft,
            Corner::BottomLeft => Corner::TopLeft,
            Corner::NoCorner => Corner::NoCorner,
        },
        Direction::CounterClockwise => match c {
            Corner::TopLeft => Corner::BottomLeft,
            Corner::BottomLeft => Corner::BottomRight,
            Corner::BottomRight => Corner::TopRight,
            Corner::TopRight => Corner::TopLeft,
            Corner::NoCorner => Corner::NoCorner,
        },
        Direction::Unknown => Corner::NoCorner,
    }
}

/// The corner reached after `k` edges (from none to four) when going round
/// from `c0` in direction `d`.
pub open spec fn corner_after(c0: Corner, d: Direction, k: int) -> Corner {
    if k <= 0 {
        c0
    } else if k == 1 {
        next_corner(d, c0)
    } else if k == 2 {
        next_corner(d, next_corner(d, c0))
    } else if k == 3 {
        next_corner(d, next_corner(d, next_corner(d, c0)))
    } else {
        next_corner(d, next_corner(d, next_corner(d, next_corner(d, c0))))
    }
}

/// The corner at which edge `b` ends when going round in direction `d`.
pub open spec fn edge_end(d: Direction, b: Border) -> Corner {
    match d {
        Direction::Clockwise => match b {
            Border::Top => Corner::TopRight,
            Border::Right => Corner::BottomRight,
            Border::Bottom => Corner::BottomLeft,
            Border::Left => Corner::TopLeft,
            Border::NoBorder => Corner::NoCorner,
        },
        Direction::CounterClockwise => match b {
            Border::Top => Corner::TopLeft,
            Border::Left => Corner::BottomLeft,
            Border::Bottom => Corner::BottomRight,
            Border::Right => Corner::TopRight,
            Border::NoBorder => Corner::NoCorner,
        },
        Direction::Unknown => Corner::NoCorner,
    }
}

/// The consistency that every reachable tracker state has. Without a gesture
/// in progress nothing is counted, no direction is known and no edge move is
/// pending; once a direction is known an edge is followed. Before the direction is known the gesture is still in order. A
/// gesture in order started in a corner and has reached between one and four
/// corners of its lap in turn (no more than it counted); before the direction
/// is known only the start corner is reached and the pointer has not left it
/// along an edge; once it is known, the edge followed is the one that starts
/// at the last corner reached, going round from the start corner.
pub open spec fn rect_wf(m: RectangleModel) -> bool {
    &&& m.is_rectangle == m.corner_reached
    &&& m.count_corners >= 0
    &&& !m.is_rectangle ==> {
        &&& m.direction == Direction::Unknown
        &&& m.count_corners == 0
        &&& !m.flag_fine
        &&& !m.in_order
        &&& !m.side_moved
    }
    &&& m.is_rectangle && m.direction == Direction::Unknown ==> m.in_order
    &&& m.direction != Direction::Unknown ==> m.current_border != Border::NoBorder
    &&& m.in_order ==> {
        &&& m.is_rectangle
        &&& m.initial_corner != Corner::NoCorner
        &&& 1 <= m.lap_corners <= 4
        &&& m.lap_corners <= m.count_corners
        &&& m.direction == Direction::Unknown ==> m.lap_corners == 1 && !m.side_moved
        &&& m.direction != Direction::Unknown ==> m.current_border == border_after(
            m.direction,
            corner_after(m.initial_corner, m.direction, m.lap_corners - 1),
        )
    }
}

/// Abandon the gesture in progress: nothing is counted, the direction is
/// unknown and no gesture is in progress; the positions, the edge and the
/// corners recorded are kept.
pub open spec fn rect_reset(m: RectangleModel) -> RectangleModel {
    RectangleModel {
        flag_fine: false,
        is_rectangle: false,
        direction: Direction::Unknown,
        corner_reached: false,
        count_corners: 0,
        in_order: false,
        side_moved: false,
        lap_corners: 0,
        ..m
    }
}

/// The first corner of a gesture is reached at `(x, y)`: it is counted, and
/// the new gesture starts in order with no corner of an abandoned one
/// remembered as the last visited.
pub open spec fn rect_start(m: RectangleModel, x: int, y: int, c: Corner) -> RectangleModel {
    RectangleModel {
        is_rectangle: true,
        initial_x: x,
        initial_y: y,
        prev_x: x,
        prev_y: y,
        corner_reached: true,
        initial_corner: c,
        count_corners: m.count_corners + 1,
        last_corner: Corner::NoCorner,
        in_order: true,
        side_moved: false,
        lap_corners: 1,
        ..m
    }
}

/// Sets the direction and the edge being followed; the pointer has moved
/// onto that edge.
pub open spec fn rect_heading(m: RectangleModel, d: Direction, b: Border) -> RectangleModel {
    RectangleModel { direction: d, current_border: b, side_moved: true, ..m }
}

/// Leaving the start corner along an edge fixes the direction: clockwise
/// along the edge that follows the corner clockwise, counter-clockwise along
/// the other one; the pointer is then on that edge. The position is recorded
/// in every case.
pub open spec fn rect_choose_direction(m: RectangleModel, x: int, y: int, w: int, h: int) -> RectangleModel {
    let m2 = match m.initial_corner {
        Corner::TopLeft => if near(y, 0) && !near(x, 0) {
            rect_heading(m, Direction::Clockwise, Border::Top)
        } else if near(x, 0) && !near(y, 0) {
            rect_heading(m, Direction::CounterClockwise, Border::Left)
        } else {
            m
        },
        Corner::TopRight => if near(x, w) && !near(y, 0) {
            rect_heading(m, Direction::Clockwise, Border::Right)
        } else if near(y, 0) && !near(x, w) {
            rect_heading(m, Direction::CounterClockwise, Border::Top)
        } else {
            m
        },
        Corner::BottomRight => if near(y, h) && !near(x, w) {
            rect_heading(m, Direction::Clockwise, Border::Bottom)
        } else if near(x, w) && !near(y, h) {
            rect_heading(m, Direction::CounterClockwise, Border::Right)
        } else {
            m
        },
        Corner::BottomLeft => if near(x, 0) && !near(y, h) {
            rect_heading(m, Direction::Clockwise, Border::Left)
        } else if near(y, h) && !near(x, 0) {
            rect_heading(m, Direction::CounterClockwise, Border::Bottom)
        } else {
            m
        },
        Corner::NoCorner => m,
    };
    RectangleModel { prev_x: x, prev_y: y, ..m2 }
}

/// The pointer moved on to `(x, y)` along the edge.
pub open spec fn rect_moved(m: RectangleModel, x: int, y: int) -> RectangleModel {
    RectangleModel { prev_x: x, prev_y: y, ..m }
}

/// A move along the top edge: it must stay on the edge and keep going the
/// same way (rightwards clockwise, leftwards counter-clockwise, within the
/// screen), or the gesture is abandoned.
pub open spec fn rect_top(m: RectangleModel, x: int, y: int, w: int) -> RectangleModel {
    match m.direction {
        Direction::Clockwise => if near(y, 0) && m.prev_x <= x && x < w {
            rect_moved(m, x, y)
        } else {
            rect_reset(m)
        },
        Direction::CounterClockwise => if near(y, 0) && m.prev_x >= x && x >= 0 {
            rect_moved(m, x, y)
        } else {
            rect_reset(m)
        },
        Direction::Unknown => m,
    }
}

/// A move along the right edge (downwards clockwise, upwards
/// counter-clockwise; going upwards only the height is recorded).
pub open spec fn rect_right(m: RectangleModel, x: int, y: int, w: int, h: int) -> RectangleModel {
    match m.direction {
        Direction::Clockwise => if near(x, w) && m.prev_y <= y && y < h {
            rect_moved(m, x, y)
        } else {
            rect_reset(m)
        },
        Direction::CounterClockwise => if near(x, w) && m.prev_y >= y && y > 0 {
            RectangleModel { prev_y: y, ..m }
        } else {
            rect_reset(m)
        },
        Direction::Unknown => m,
    }
}

/// A move along the bottom edge (leftwards clockwise, rightwards
/// counter-clockwise, within the screen).
pub open spec fn rect_bottom(m: RectangleModel, x: int, y: int, w: int, h: int) -> RectangleModel {
    match m.direction {
        Direction::Clockwise => if near(y, h) && m.prev_x >= x && x > 0 {
            rect_moved(m, x, y)
        } else {
            rect_reset(m)
        },
        Direction::CounterClockwise => if near(y, h) && m.prev_x <= x && x < w {
            rect_moved(m, x, y)
        } else {
            rect_reset(m)
        },
        Direction::Unknown => m,
    }
}

/// A move along the left edge (upwards clockwise, downwards counter-clockwise).
pub open spec fn rect_left(m: RectangleModel, x: int, y: int, h: int) -> RectangleModel {
    match m.direction {
        Direction::Clockwise => if near(x, 0) && m.prev_y >= y && y > 0 {
            rect_moved(m, x, y)
        } else {
            rect_reset(m)
        },
        Direction::CounterClockwise => if near(x, 0) && m.prev_y <= y && y < h {
            rect_moved(m, x, y)
        } else {
            rect_reset(m)
        },
        Direction::Unknown => m,
    }
}

/// A move away from the corners once the direction is known: the pointer has
/// now moved along an edge, and the move is checked against the edge being
/// followed.
pub open spec fn rect_follow(m: RectangleModel, x: int, y: int, w: int, h: int) -> RectangleModel {
    let m1 = RectangleModel { flag_fine: true, side_moved: true, ..m };
    match m1.current_border {
        Border::Top => rect_top(m1, x, y, w),
        Border::Right => rect_right(m1, x, y, w, h),
        Border::Bottom => rect_bottom(m1, x, y, w, h),
        Border::Left => rect_left(m1, x, y, h),
        Border::NoBorder => m1,
    }
}

/// The edge that starts at corner `c` when going round in direction `d`.
pub open spec fn border_after(d: Direction, c: Corner) -> Border {
    match d {
        Direction::Clockwise => match c {
            Corner::TopLeft => Border::Top,
            Corner::TopRight => Border::Right,
            Corner::BottomLeft => Border::Left,
            Corner::BottomRight => Border::Bottom,
            Corner::NoCorner => Border::NoBorder,
        },
        _ => match c {
            Corner::TopLeft => Border::Left,
            Corner::TopRight => Border::Top,
            Corner::BottomLeft => Border::Bottom,
            Corner::BottomRight => Border::Right,
            Corner::NoCorner => Border::NoBorder,
        },
    }
}

/// Arriving at corner `c`, other than the last corner visited: once the
/// direction is known the corner is counted and the edge that starts there
/// is followed. The lap goes on in order when the pointer has moved along the
/// edge being followed, `c` is where that edge ends and fewer than four
/// corners of the lap were reached; otherwise reaching the start corner
/// starts a new lap from it, and reaching any other corner puts the gesture
/// out of order. `c` becomes the last corner visited.
pub open spec fn rect_turn(m: RectangleModel, c: Corner) -> RectangleModel {
    if c != Corner::NoCorner && m.last_corner != c {
        let m2 = if m.direction == Direction::Unknown {
            m
        } else {
            let in_turn = m.in_order && m.side_moved && m.lap_corners < 4 && c == edge_end(
                m.direction,
                m.current_border,
            );
            RectangleModel {
                current_border: border_after(m.direction, c),
                count_corners: m.count_corners + 1,
                lap_corners: if in_turn {
                    m.lap_corners + 1
                } else {
                    1
                },
                in_order: in_turn || c == m.initial_corner,
                side_moved: false,
                ..m
            }
        };
        RectangleModel { last_corner: c, ..m2 }
    } else {
        m
    }
}

/// The move into corner `c` closes the rectangle: `c` is the start corner,
/// the pointer has moved along an edge and more than two corners were
/// counted; moreover the lap went round in order and arrives along the edge
/// being followed, which ends at `c`, after moving along it.
pub open spec fn rect_closes(m: RectangleModel, c: Corner) -> bool {
    &&& m.initial_corner == c
    &&& m.flag_fine
    &&& m.count_corners > 2
    &&& m.in_order
    &&& m.side_moved
    &&& c == edge_end(m.direction, m.current_border)
}

/// One event applied to the rectangle tracker on a `w` x `h` screen: the new
/// state, and whether the rectangle was completed by this event.
pub open spec fn rect_step(m: RectangleModel, w: int, h: int, ev: MouseEvent) -> (RectangleModel, bool) {
    match ev {
        MouseEvent::MouseMove { x, y } => {
            let x: int = x as int;
            let y: int = y as int;
            let c = corner_at(x, y, w, h);
            if c != Corner::NoCorner && !m.corner_reached {
                (rect_start(m, x, y, c), false)
            } else if m.is_rectangle && m.direction == Direction::Unknown && c == Corner::NoCorner {
                (rect_choose_direction(m, x, y, w, h), false)
            } else if m.is_rectangle && m.direction != Direction::Unknown && c == Corner::NoCorner {
                (rect_follow(m, x, y, w, h), false)
            } else if rect_closes(m, c) {
                (RectangleModel { flag_fine: false, ..m }, true)
            } else {
                (rect_turn(m, c), false)
            }
        },
        MouseEvent::Other => (m, false),
    }
}


impl RectangleTracker {
    /// A tracker that has seen nothing yet.
    pub fn new() -> (t: Self)
        ensures
            t@ == rect_initial(),
            rect_wf(t@),
    {
        RectangleTracker {
            is_rectangle: false,
            prev_x: 0,
            prev_y: 0,
            current_border: Border::NoBorder,
            direction: Direction::Unknown,
            corner_reached: false,
            initial_x: 0,
            initial_y: 0,
            initial_corner: Corner::NoCorner,
            flag_fine: false,
            count_corners: 0,
            last_corner: Corner::NoCorner,
            in_order: false,
            side_moved: false,
            lap_corners: 0,
        }
    }

    /// How many corners the gesture in progress has counted.
    pub fn count_corners(&self) -> (n: i32)
        ensures
            n == self@.count_corners,
    {
        self.count_corners
    }

    /// Whether a gesture is in progress.
    pub fn is_rectangle(&self) -> (b: bool)
        ensures
            b == self@.is_rectangle,
    {
        self.is_rectangle
    }

    /// The direction of the gesture in progress.
    pub fn direction(&self) -> (d: Direction)
        ensures
            d == self@.direction,
    {
        self.direction
    }

    /// The edge being followed.
    pub fn current_border(&self) -> (b: Border)
        ensures
            b == self@.current_border,
    {
        self.current_border
    }

    /// The corner the gesture started from.
    pub fn initial_corner(&self) -> (c: Corner)
        ensures
            c == self@.initial_corner,
    {
        self.initial_corner
    }

    /// The last corner visited.
    pub fn last_corner(&self) -> (c: Corner)
        ensures
            c == self@.last_corner,
    {
        self.last_corner
    }
}

fn reset_tracker(tracker: &mut RectangleTracker)
    ensures
        final(tracker)@ == rect_reset(old(tracker)@),
{
    tracker.flag_fine = false;
    tracker.is_rectangle = false;
    tracker.direction = Direction::Unknown;
    tracker.corner_reached = false;
    tracker.count_corners = 0;
    tracker.in_order = false;
    tracker.side_moved = false;
    tracker.lap_corners = 0;
}

fn set_position(tracker: &mut RectangleTracker, x: i32, y: i32)
    ensures
        final(tracker)@ == rect_moved(old(tracker)@, x as int, y as int),
{
    tracker.prev_y = y;
    tracker.prev_x = x;
}

fn handle_top_border(tracker: &mut RectangleTracker, x: i32, y: i32, screen_width: u32)
    ensures
        final(tracker)@ == rect_top(old(tracker)@, x as int, y as int, screen_width as int),
{
    match tracker.direction {
        Direction::Clockwise => {
            if is_near(y as i64, 0) && tracker.prev_x <= x && (x as i64) < (screen_width as i64) {
                set_position(tracker, x, y);
            } else {
                reset_tracker(tracker);
            }
        },
        Direction::CounterClockwise => {
            if is_near(y as i64, 0) && tracker.prev_x >= x && x >= 0 {
                set_position(tracker, x, y);
            } else {
                reset_tracker(tracker);
            }
        },
        Direction::Unknown => {},
    }
}

fn handle_right_border(tracker: &mut RectangleTracker, x: i32, y: i32, screen_width: u32, screen_height: u32)
    ensures
        final(tracker)@ == rect_right(
            old(tracker)@,
            x as int,
            y as int,
            screen_width as int,
            screen_height as int,
        ),
{
    match tracker.direction {
        Direction::Clockwise => {
            if is_near(x as i64, screen_width as i64) && tracker.prev_y <= y && (y as i64) < (screen_height as i64) {
                set_position(tracker, x, y);
            } else {
                reset_tracker(tracker);
            }
        },
        Direction::CounterClockwise => {
            if is_near(x as i64, screen_width as i64) && tracker.prev_y >= y && y > 0 {
                tracker.prev_y = y;
            } else {
                reset_tracker(tracker);
            }
        },
        Direction::Unknown => {},
    }
}

fn handle_bottom_border(tracker: &mut RectangleTracker, x: i32, y: i32, screen_width: u32, screen_height: u32)
    ensures
        final(tracker)@ == rect_bottom(
            old(tracker)@,
            x as int,
            y as int,
            screen_width as int,
            screen_height as int,
        ),
{
    match tracker.direction {
        Direction::Clockwise => {
            if is_near(y as i64, screen_height as i64) && tracker.prev_x >= x && x > 0 {
                set_position(tracker, x, y);
            } else {
                reset_tracker(tracker);
            }
        },
        Direction::CounterClockwise => {
            if is_near(y as i64, screen_height as i64) && tracker.prev_x <= x && (x as i64) < (screen_width as i64) {
                set_position(tracker, x, y);
            } else {
                reset_tracker(tracker);
            }
        },
        Direction::Unknown => {},
    }
}

fn handle_left_border(tracker: &mut RectangleTracker, x: i32, y: i32, screen_height: u32)
    ensures
        final(tracker)@ == rect_left(old(tracker)@, x as int, y as int, screen_height as int),
{
    match tracker.direction {
        Direction::Clockwise => {
            if is_near(x as i64, 0) && tracker.prev_y >= y && y > 0 {
                set_position(tracker, x, y);
            } else {
                reset_tracker(tracker);
            }
        },
        Direction::CounterClockwise => {
            if is_near(x as i64, 0) && tracker.prev_y <= y && (y as i64) < (screen_height as i64) {
                set_position(tracker, x, y);
            } else {
                reset_tracker(tracker);
            }
        },
        Direction::Unknown => {},
    }
}

fn set_heading(tracker: &mut RectangleTracker, d: Direction, b: Border)
    ensures
        final(tracker)@ == rect_heading(old(tracker)@, d, b),
{
    tracker.direction = d;
    tracker.current_border = b;
    tracker.side_moved = true;
}

fn choose_direction(tracker: &mut RectangleTracker, x: i32, y: i32, screen_width: u32, screen_height: u32)
    ensures
        final(tracker)@ == rect_choose_direction(
            old(tracker)@,
            x as int,
            y as int,
            screen_width as int,
            screen_height as int,
        ),
{
    let xi: i64 = x as i64;
    let yi: i64 = y as i64;
    let w: i64 = screen_width as i64;
    let h: i64 = screen_height as i64;
    match tracker.initial_corner {
        Corner::TopLeft => {
            if is_near(yi, 0) && !is_near(xi, 0) {
                set_heading(tracker, Direction::Clockwise, Border::Top);
            } else if is_near(xi, 0) && !is_near(yi, 0) {
                set_heading(tracker, Direction::CounterClockwise, Border::Left);
            }
        },
        Corner::TopRight => {
            if is_near(xi, w) && !is_near(yi, 0) {
                set_heading(tracker, Direction::Clockwise, Border::Right);
            } else if is_near(yi, 0) && !is_near(xi, w) {
                set_heading(tracker, Direction::CounterClockwise, Border::Top);
            }
        },
        Corner::BottomRight => {
            if is_near(yi, h) && !is_near(xi, w) {
                set_heading(tracker, Direction::Clockwise, Border::Bottom);
            } else if is_near(xi, w) && !is_near(yi, h) {
                set_heading(tracker, Direction::CounterClockwise, Border::Right);
            }
        },
        Corner::BottomLeft => {
            if is_near(xi, 0) && !is_near(yi, h) {
                set_heading(tracker, Direction::Clockwise, Border::Left);
            } else if is_near(yi, h) && !is_near(xi, 0) {
                set_heading(tracker, Direction::CounterClockwise, Border::Bottom);
            }
        },
        Corner::NoCorner => {},
    }
    tracker.prev_x = x;
    tracker.prev_y = y;
}

/// The corner at which edge `b` ends when going round in direction `d`.
fn end_of_edge(d: Direction, b: Border) -> (c: Corner)
    ensures
        c == edge_end(d, b),
{
    match d {
        Direction::Clockwise => match b {
            Border::Top => Corner::TopRight,
            Border::Right => Corner::BottomRight,
            Border::Bottom => Corner::BottomLeft,
            Border::Left => Corner::TopLeft,
            Border::NoBorder => Corner::NoCorner,
        },
        Direction::CounterClockwise => match b {
            Border::Top => Corner::TopLeft,
            Border::Left => Corner::BottomLeft,
            Border::Bottom => Corner::BottomRight,
            Border::Right => Corner::TopRight,
            Border::NoBorder => Corner::NoCorner,
        },
        Direction::Unknown => Corner::NoCorner,
    }
}

fn switch_border(tracker: &mut RectangleTracker, corner: Corner)
    requires
        old(tracker)@.count_corners < i32::MAX,
    ensures
        final(tracker)@ == rect_turn(old(tracker)@, corner),
{
    if tracker.last_corner != corner && corner != Corner::NoCorner {
        if tracker.direction != Direction::Unknown {
            let in_turn = tracker.in_order && tracker.side_moved && tracker.lap_corners < 4
                && corner == end_of_edge(tracker.direction, tracker.current_border);
            tracker.current_border = match tracker.direction {
                Direction::Clockwise => match corner {
                    Corner::TopLeft => Border::Top,
                    Corner::TopRight => Border::Right,
                    Corner::BottomLeft => Border::Left,
                    Corner::BottomRight => Border::Bottom,
                    Corner::NoCorner => Border::NoBorder,
                },
                _ => match corner {
                    Corner::TopLeft => Border::Left,
                    Corner::TopRight => Border::Top,
                    Corner::BottomLeft => Border::Bottom,
                    Corner::BottomRight => Border::Right,
                    Corner::NoCorner => Border::NoBorder,
                },
            };
            tracker.count_corners = tracker.count_corners + 1;
            tracker.lap_corners = if in_turn {
                tracker.lap_corners + 1
            } else {
                1
            };
            tracker.in_order = in_turn || corner == tracker.initial_corner;
            tracker.side_moved = false;
        }
        tracker.last_corner = corner;
    }
}

/// Feeds one event to the rectangle tracker. Returns `true` when this event
/// brings the pointer back to the start corner along the last of the four
/// edges of a lap, having turned at each of the other three corners in turn
/// after moving along the edge that ends there. The corner count must leave
/// room for one more corner.
pub fn track_rectangle(
    tracker: &mut RectangleTracker,
    screen_width: u32,
    screen_height: u32,
    event: MouseEvent,
) -> (done: bool)
    requires
        rect_wf(old(tracker)@),
        old(tracker)@.count_corners < i32::MAX,
    ensures
        (final(tracker)@, done) == rect_step(
            old(tracker)@,
            screen_width as int,
            screen_height as int,
            event,
        ),
        rect_wf(final(tracker)@),
{
    proof {
        lemma_rect_step_preserves_wf(old(tracker)@, screen_width as int, screen_height as int, event);
    }
    if let MouseEvent::MouseMove { x, y } = event {
        let corner = detect_corner(x, y, screen_width, screen_height);
        if corner != Corner::NoCorner && !tracker.corner_reached {
            tracker.is_rectangle = true;
            tracker.initial_x = x;
            tracker.initial_y = y;
            tracker.prev_x = x;
            tracker.prev_y = y;
            tracker.corner_reached = true;
            tracker.initial_corner = corner;
            tracker.count_corners = tracker.count_corners + 1;
            tracker.last_corner = Corner::NoCorner;
            tracker.in_order = true;
            tracker.side_moved = false;
            tracker.lap_corners = 1;
        } else if tracker.is_rectangle && tracker.direction == Direction::Unknown && corner == Corner::NoCorner {
            choose_direction(tracker, x, y, screen_width, screen_height);
        } else if tracker.is_rectangle && tracker.direction != Direction::Unknown && corner == Corner::NoCorner {
            tracker.flag_fine = true;
            tracker.side_moved = true;
            match tracker.current_border {
                Border::Top => handle_top_border(tracker, x, y, screen_width),
                Border::Right => handle_right_border(tracker, x, y, screen_width, screen_height),
                Border::Bottom => handle_bottom_border(tracker, x, y, screen_width, screen_height),
                Border::Left => handle_left_border(tracker, x, y, screen_height),
                Border::NoBorder => {},
            }
        } else {
            if tracker.initial_corner == corner && tracker.flag_fine && tracker.count_corners > 2
                && tracker.in_order && tracker.side_moved
                && corner == end_of_edge(tracker.direction, tracker.current_border) {
                tracker.flag_fine = false;
                return true;
            } else {
                switch_border(tracker, corner);
            }
        }
    }
    false
}


/// The state of a minus-sign gesture, as the contracts speak of it.
pub struct MinusModel {
    pub is_tracking: bool,
    pub initial_x: int,
    pub initial_y: int,
    pub prev_x: int,
    pub is_minus_sign: bool,
}

/// Follows a horizontal stroke and reports when it has gone far enough to
/// the right while keeping its height.
pub struct MinusSignTracker {
    is_tracking: bool,
    initial_x: i32,
    initial_y: i32,
    prev_x: i32,
    is_minus_sign: bool,
}

impl View for MinusSignTracker {
    type V = MinusModel;

    closed spec fn view(&self) -> MinusModel {
        MinusModel {
            is_tracking: self.is_tracking,
            initial_x: self.initial_x as int,
            initial_y: self.initial_y as int,
            prev_x: self.prev_x as int,
            is_minus_sign: self.is_minus_sign,
        }
    }
}

/// A minus-sign tracker that has seen nothing yet.
pub open spec fn minus_initial() -> MinusModel {
    MinusModel { is_tracking: false, initial_x: 0, initial_y: 0, prev_x: 0, is_minus_sign: false }
}

/// A horizontal distance `dx` counts as a minus sign on a screen `w` pixels
/// wide when it is at least a fifth of the width.
pub open spec fn long_enough(dx: int, w: int) -> bool {
    5 * dx >= w
}

/// One event applied to the minus-sign tracker on a screen `w` pixels wide:
/// the first move starts a stroke; a move that keeps the stroke's height
/// extends it, and completes it once it reaches far enough to the right of
/// its start; any other move abandons the stroke.
pub open spec fn minus_step(m: MinusModel, w: int, ev: MouseEvent) -> (MinusModel, bool) {
    match ev {
        MouseEvent::MouseMove { x, y } => {
            let x: int = x as int;
            let y: int = y as int;
            if !m.is_tracking {
                (MinusModel { is_tracking: true, initial_x: x, initial_y: y, prev_x: x, ..m }, false)
            } else if near(m.initial_y, y) {
                let m2 = MinusModel { prev_x: x, ..m };
                if long_enough(x - m.initial_x, w) {
                    (MinusModel { is_minus_sign: true, ..m2 }, true)
                } else {
                    (m2, false)
                }
            } else {
                (MinusModel { is_tracking: false, ..m }, false)
            }
        },
        MouseEvent::Other => (m, false),
    }
}

impl MinusSignTracker {
    /// A tracker that has seen nothing yet.
    pub fn new() -> (t: Self)
        ensures
            t@ == minus_initial(),
    {
        MinusSignTracker { is_tracking: false, initial_x: 0, initial_y: 0, prev_x: 0, is_minus_sign: false }
    }

    /// Whether a stroke is being followed.
    pub fn is_tracking(&self) -> (b: bool)
        ensures
            b == self@.is_tracking,
    {
        self.is_tracking
    }

    /// Whether a minus sign has been recognised.
    pub fn is_minus_sign(&self) -> (b: bool)
        ensures
            b == self@.is_minus_sign,
    {
        self.is_minus_sign
    }
}

/// Feeds one event to the minus-sign tracker. Returns `true` when this event
/// completes a stroke that stayed within the tolerance of its starting height
/// and reaches at least a fifth of the screen width to the right of its start.
/// The screen height plays no part.
pub fn detect_minus_sign(
    tracker: &mut MinusSignTracker,
    screen_width: u32,
    _screen_height: u32,
    event: MouseEvent,
) -> (found: bool)
    ensures
        (final(tracker)@, found) == minus_step(old(tracker)@, screen_width as int, event),
{
    if let MouseEvent::MouseMove { x, y } = event {
        if !tracker.is_tracking {
            tracker.is_tracking = true;
            tracker.initial_x = x;
            tracker.initial_y = y;
            tracker.prev_x = x;
        } else if is_near(tracker.initial_y as i64, y as i64) {
            tracker.prev_x = x;
            let dx: i64 = tracker.prev_x as i64 - tracker.initial_x as i64;
            if 5 * dx >= screen_width as i64 {
                tracker.is_minus_sign = true;
                return true;
            }
        } else {
            tracker.is_tracking = false;
        }
    }
    false
}


/// A fresh rectangle tracker is consistent.
pub proof fn lemma_rect_initial_wf()
    ensures
        rect_wf(rect_initial()),
{
}

/// Going round the screen from a corner visits the four corners in turn and
/// comes back to the start after four edges; each edge ends at the next
/// corner.
pub proof fn lemma_corner_cycle(c0: Corner, d: Direction)
    requires
        c0 != Corner::NoCorner,
        d != Direction::Unknown,
    ensures
        corner_after(c0, d, 0) == c0,
        corner_after(c0, d, 4) == c0,
        forall|k: int| 1 <= k <= 3 ==> #[trigger] corner_after(c0, d, k) != c0,
        forall|k: int| 0 <= k <= 4 ==> #[trigger] corner_after(c0, d, k) != Corner::NoCorner,
        forall|k: int| 0 <= k <= 3 ==> next_corner(d, #[trigger] corner_after(c0, d, k)) == corner_after(c0, d, k + 1),
        forall|k: int| 0 <= k <= 3 ==> edge_end(d, border_after(d, #[trigger] corner_after(c0, d, k))) == corner_after(c0, d, k + 1),
{
    let c1 = next_corner(d, c0);
    let c2 = next_corner(d, c1);
    let c3 = next_corner(d, c2);
    let c4 = next_corner(d, c3);
    assert(c1 != c0 && c2 != c0 && c3 != c0 && c4 == c0 && c1 != Corner::NoCorner && c2 != Corner::NoCorner
        && c3 != Corner::NoCorner) by {
        match d {
            Direction::Clockwise => match c0 {
                Corner::TopLeft => {},
                Corner::TopRight => {},
                Corner::BottomRight => {},
                Corner::BottomLeft => {},
                Corner::NoCorner => {},
            },
            _ => match c0 {
                Corner::TopLeft => {},
                Corner::TopRight => {},
                Corner::BottomRight => {},
                Corner::BottomLeft => {},
                Corner::NoCorner => {},
            },
        }
    }
    assert(corner_after(c0, d, 1) == c1);
    assert(corner_after(c0, d, 2) == c2);
    assert(corner_after(c0, d, 3) == c3);
    assert(corner_after(c0, d, 4) == c4);
    assert forall|c: Corner| c != Corner::NoCorner implies edge_end(d, border_after(d, c)) == #[trigger] next_corner(d, c) by {
        match d {
            Direction::Clockwise => {},
            _ => {},
        }
    }
    assert forall|k: int| 0 <= k <= 3 implies edge_end(d, border_after(d, #[trigger] corner_after(c0, d, k))) == corner_after(c0, d, k + 1) by {
        assert(next_corner(d, corner_after(c0, d, k)) == corner_after(c0, d, k + 1));
    }
}

/// Every event keeps the rectangle tracker consistent (see `rect_wf`).
pub proof fn lemma_rect_step_preserves_wf(m: RectangleModel, w: int, h: int, ev: MouseEvent)
    requires
        rect_wf(m),
    ensures
        rect_wf(rect_step(m, w, h, ev).0),
{
    if m.in_order && m.direction != Direction::Unknown {
        lemma_corner_cycle(m.initial_corner, m.direction);
    }
}

/// A rectangle is reported only for a pointer move into the start corner of
/// a gesture in progress whose lap went round in order, arriving along the
/// fourth edge (the one that ends there) after moving along it, once the other
/// three corners were each reached in turn; the report clears the pending
/// completion.
pub proof fn lemma_rect_completion(m: RectangleModel, w: int, h: int, ev: MouseEvent)
    requires
        rect_wf(m),
        rect_step(m, w, h, ev).1,
    ensures
        ev matches MouseEvent::MouseMove { x, y } && corner_at(x as int, y as int, w, h) == m.initial_corner,
        m.initial_corner != Corner::NoCorner,
        m.is_rectangle,
        m.in_order,
        m.flag_fine,
        m.side_moved,
        m.direction != Direction::Unknown,
        m.lap_corners == 4,
        m.count_corners >= 4,
        m.current_border == border_after(m.direction, corner_after(m.initial_corner, m.direction, 3)),
        edge_end(m.direction, m.current_border) == m.initial_corner,
        !rect_step(m, w, h, ev).0.flag_fine,
{
    lemma_corner_cycle(m.initial_corner, m.direction);
    let k = m.lap_corners - 1;
    assert(edge_end(m.direction, border_after(m.direction, corner_after(m.initial_corner, m.direction, k)))
        == corner_after(m.initial_corner, m.direction, k + 1));
}

/// Lingering in a corner: once a move into a corner has been handled without
/// completing the rectangle, a further move into the same corner changes
/// nothing and completes nothing, so a corner is never counted twice in a
/// row.
pub proof fn lemma_corner_linger(m: RectangleModel, w: int, h: int, x1: i32, y1: i32, x2: i32, y2: i32)
    requires
        rect_wf(m),
        m.is_rectangle,
        corner_at(x1 as int, y1 as int, w, h) != Corner::NoCorner,
        corner_at(x2 as int, y2 as int, w, h) == corner_at(x1 as int, y1 as int, w, h),
        !rect_step(m, w, h, MouseEvent::MouseMove { x: x1, y: y1 }).1,
    ensures
        ({
            let m1 = rect_step(m, w, h, MouseEvent::MouseMove { x: x1, y: y1 }).0;
            rect_step(m1, w, h, MouseEvent::MouseMove { x: x2, y: y2 }) == (m1, false)
        }),
{
}

/// Two events in a row never both complete a rectangle.
pub proof fn lemma_rect_no_double_completion(
    m: RectangleModel,
    w: int,
    h: int,
    first: MouseEvent,
    second: MouseEvent,
)
    requires
        rect_step(m, w, h, first).1,
    ensures
        !rect_step(rect_step(m, w, h, first).0, w, h, second).1,
{
}

/// Events other than pointer moves leave both trackers as they were and
/// complete nothing.
pub proof fn lemma_other_events_ignored(r: RectangleModel, m: MinusModel, w: int, h: int)
    ensures
        rect_step(r, w, h, MouseEvent::Other) == (r, false),
        minus_step(m, w, MouseEvent::Other) == (m, false),
{
}

/// A minus sign is reported only for a pointer move that continues a stroke
/// at the stroke's starting height and lies at least a fifth of the screen
/// width to the right of the stroke's start; the tracker then records it.
pub proof fn lemma_minus_detection(m: MinusModel, w: int, ev: MouseEvent)
    requires
        minus_step(m, w, ev).1,
    ensures
        m.is_tracking,
        ev matches MouseEvent::MouseMove { x, y } && near(m.initial_y, y as int) && 5 * (x - m.initial_x) >= w,
        minus_step(m, w, ev).0.is_minus_sign,
{
}

/// While a stroke is followed, a move that keeps within the tolerance of the
/// stroke's starting height keeps the stroke's start where it was, whatever
/// way it goes, and is reported as a minus sign exactly when it lies at least
/// a fifth of the screen width `w` to the right of that start.
pub proof fn lemma_minus_stroke_in_band(m: MinusModel, w: int, x: i32, y: i32)
    requires
        m.is_tracking,
        -TOLERANCE < m.initial_y - y < TOLERANCE,
    ensures
        ({
            let (m1, found) = minus_step(m, w, MouseEvent::MouseMove { x, y });
            &&& m1.is_tracking
            &&& m1.initial_x == m.initial_x
            &&& m1.initial_y == m.initial_y
            &&& m1.prev_x == x
            &&& found <==> 5 * (x - m.initial_x) >= w
            &&& found ==> m1.is_minus_sign
            &&& !found ==> m1.is_minus_sign == m.is_minus_sign
        }),
{
}

/// A stroke starts at the first move seen while none is followed, and a move
/// that leaves the tolerance of the stroke's starting height abandons it;
/// neither reports a minus sign.
pub proof fn lemma_minus_stroke_start_and_leave(m: MinusModel, w: int, x: i32, y: i32)
    ensures
        ({
            let (m1, found) = minus_step(m, w, MouseEvent::MouseMove { x, y });
            &&& !m.is_tracking ==> !found && m1.is_tracking && m1.initial_x == x && m1.initial_y == y && m1.prev_x == x
            &&& m.is_tracking && !(-TOLERANCE < m.initial_y - y < TOLERANCE) ==> !found && !m1.is_tracking
        }),
{
}

/// A move into a corner during a gesture that does not complete the
/// rectangle: in the last corner visited it changes nothing; in another one
/// that corner becomes the last visited and, once the direction is known, it
/// is counted and the edge that leaves it going round is followed (clockwise:
/// the top edge from the top-left corner, the right edge from the top-right,
/// the bottom edge from the bottom-right, the left edge from the bottom-left;
/// counter-clockwise: left, top, right and bottom from those corners). The
/// recorded positions, the direction and the start corner are kept.
pub proof fn lemma_corner_move(m: RectangleModel, w: int, h: int, x: i32, y: i32)
    requires
        rect_wf(m),
        m.is_rectangle,
        corner_at(x as int, y as int, w, h) != Corner::NoCorner,
        !rect_step(m, w, h, MouseEvent::MouseMove { x, y }).1,
    ensures
        ({
            let c = corner_at(x as int, y as int, w, h);
            let m1 = rect_step(m, w, h, MouseEvent::MouseMove { x, y }).0;
            &&& c == m.last_corner ==> m1 == m
            &&& c != m.last_corner ==> {
                &&& m1.last_corner == c
                &&& m1.is_rectangle
                &&& m1.direction == m.direction
                &&& m1.initial_corner == m.initial_corner
                &&& m1.prev_x == m.prev_x
                &&& m1.prev_y == m.prev_y
                &&& m1.flag_fine == m.flag_fine
                &&& m.direction == Direction::Unknown ==> m1.count_corners == m.count_corners && m1.current_border
                    == m.current_border
                &&& m.direction != Direction::Unknown ==> m1.count_corners == m.count_corners + 1
                &&& m.direction == Direction::Clockwise ==> m1.current_border == match c {
                    Corner::TopLeft => Border::Top,
                    Corner::TopRight => Border::Right,
                    Corner::BottomRight => Border::Bottom,
                    Corner::BottomLeft => Border::Left,
                    Corner::NoCorner => Border::NoBorder,
                }
                &&& m.direction == Direction::CounterClockwise ==> m1.current_border == match c {
                    Corner::TopLeft => Border::Left,
                    Corner::TopRight => Border::Top,
                    Corner::BottomRight => Border::Right,
                    Corner::BottomLeft => Border::Bottom,
                    Corner::NoCorner => Border::NoBorder,
                }
            }
        }),
{
}

} // verus!
