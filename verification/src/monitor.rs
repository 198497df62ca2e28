use vstd::prelude::*;
use crate::tracker::{
    RectangleTracker, MinusSignTracker, RectangleModel, MinusModel, MouseEvent, rect_step, minus_step,
    rect_initial, minus_initial, rect_wf, track_rectangle, detect_minus_sign, TOLERANCE,
    lemma_rect_step_preserves_wf,
};

verus! {

/// Events closer than this (in nanoseconds) to the last accepted event are
/// dropped.
pub const DEBOUNCE_INTERVAL_NS: u64 = 100_000_000;

/// How long (in nanoseconds) the minus sign may keep the user waiting after
/// the rectangle, before the rectangle is awaited again.
pub const MINUS_SIGN_TIMEOUT_NS: u64 = 10_000_000_000;

/// What the event loop has to do after an event.
#[derive(Clone, Copy, Debug, PartialEq, Eq, Structural)]
pub enum MonitorAction {
    /// The event was dropped: the gesture was already complete, or the event
    /// came too soon after the last accepted one.
    Ignored,
    /// The event was fed to the current tracker and completed nothing.
    Followed,
    /// A rectangle was completed: signal it; the minus sign is awaited next.
    RectangleCompleted,
    /// The minus sign was drawn: the gesture is complete, start the backup.
    MinusSignDetected,
    /// The minus sign did not come in time: the rectangle is awaited again.
    TimedOut,
}

/// The monitor's state, as the contracts speak of it.
pub struct MonitorModel {
    pub rect: RectangleModel,
    pub minus: MinusModel,
    pub monitoring_rectangle: bool,
    pub last_event: int,
    pub done: bool,
    pub timeout_at: Option<int>,
    pub screen_width: int,
    pub screen_height: int,
    /// Whether a completed rectangle starts the timeout for the minus sign.
    pub minus_sign_timeout: bool,
    /// The actions reported so far, in order.
    pub actions: Seq<MonitorAction>,
}

/// Decides, event by event, how the two gestures (a rectangle round the
/// screen edges, then a minus sign) are recognised. Times are nanoseconds on
/// a monotonic clock.
pub struct MovementMonitor {
    tracker_rectangle: RectangleTracker,
    tracker_minus_sign: MinusSignTracker,
    monitoring_rectangle: bool,
    last_event_ns: u64,
    done: bool,
    timeout_at_ns: Option<u64>,
    screen_width: u32,
    screen_height: u32,
    minus_sign_timeout: bool,
    actions: Ghost<Seq<MonitorAction>>,
}

impl View for MovementMonitor {
    type V = MonitorModel;

    closed spec fn view(&self) -> MonitorModel {
        MonitorModel {
            rect: self.tracker_rectangle@,
            minus: self.tracker_minus_sign@,
            monitoring_rectangle: self.monitoring_rectangle,
            last_event: self.last_event_ns as int,
            done: self.done,
            timeout_at: match self.timeout_at_ns {
                Some(t) => Some(t as int),
                None => None,
            },
            screen_width: self.screen_width as int,
            screen_height: self.screen_height as int,
            minus_sign_timeout: self.minus_sign_timeout,
            actions: self.actions@,
        }
    }
}

/// A monitor started at time `start` on a `w` x `h` screen, with or without
/// a timeout for the minus sign: it awaits the rectangle, with fresh trackers,
/// no timeout running and nothing reported.
pub open spec fn monitor_initial(start: int, w: int, h: int, minus_sign_timeout: bool) -> MonitorModel {
    MonitorModel {
        rect: rect_initial(),
        minus: minus_initial(),
        monitoring_rectangle: true,
        last_event: start,
        done: false,
        timeout_at: None,
        screen_width: w,
        screen_height: h,
        minus_sign_timeout,
        actions: seq![],
    }
}

/// The event at `now` is dropped: the gesture is already complete, or less
/// than the debounce interval has passed since the last accepted event.
pub open spec fn monitor_ignores(m: MonitorModel, now: int) -> bool {
    m.done || now < m.last_event + DEBOUNCE_INTERVAL_NS
}

/// What one event at time `now` does to the monitor's state (apart from the
/// record of actions) and what the loop has to do. A completed rectangle
/// starts the timeout for the minus sign when the monitor has one.
pub open spec fn monitor_decide(m: MonitorModel, now: int, ev: MouseEvent) -> (MonitorModel, MonitorAction) {
    if monitor_ignores(m, now) {
        (m, MonitorAction::Ignored)
    } else if m.monitoring_rectangle {
        let (r, completed) = rect_step(m.rect, m.screen_width, m.screen_height, ev);
        if completed {
            (
                MonitorModel {
                    rect: r,
                    minus: minus_initial(),
                    monitoring_rectangle: false,
                    timeout_at: if m.minus_sign_timeout {
                        Some(timeout_deadline(now))
                    } else {
                        None
                    },
                    last_event: now,
                    ..m
                },
                MonitorAction::RectangleCompleted,
            )
        } else {
            (MonitorModel { rect: r, last_event: now, ..m }, MonitorAction::Followed)
        }
    } else {
        let (n, found) = minus_step(m.minus, m.screen_width, ev);
        if found {
            (MonitorModel { minus: n, done: true, last_event: now, ..m }, MonitorAction::MinusSignDetected)
        } else if m.timeout_at matches Some(t) && now >= t {
            (
                MonitorModel {
                    minus: n,
                    monitoring_rectangle: true,
                    timeout_at: None,
                    last_event: now,
                    ..m
                },
                MonitorAction::TimedOut,
            )
        } else {
            (MonitorModel { minus: n, last_event: now, ..m }, MonitorAction::Followed)
        }
    }
}

/// One event at time `now`: the new state, with the action recorded, and
/// what the loop has to do.
pub open spec fn monitor_step(m: MonitorModel, now: int, ev: MouseEvent) -> (MonitorModel, MonitorAction) {
    let (m2, a) = monitor_decide(m, now, ev);
    (MonitorModel { actions: m.actions.push(a), ..m2 }, a)
}

/// The deadline of a timeout started at `now` (saturating at the clock's end).
pub open spec fn timeout_deadline(now: int) -> int {
    if now + MINUS_SIGN_TIMEOUT_NS <= u64::MAX {
        now + MINUS_SIGN_TIMEOUT_NS
    } else {
        u64::MAX as int
    }
}

impl MovementMonitor {
    /// A monitor started at `start_ns` on a screen of the given size; with
    /// `minus_sign_timeout`, a completed rectangle gives the minus sign
    /// `MINUS_SIGN_TIMEOUT_NS` to arrive.
    pub fn new(start_ns: u64, screen_width: u32, screen_height: u32, minus_sign_timeout: bool) -> (m: Self)
        ensures
            m@ == monitor_initial(start_ns as int, screen_width as int, screen_height as int, minus_sign_timeout),
            monitor_wf(m@),
    {
        proof {
            lemma_monitor_initial_wf(start_ns as int, screen_width as int, screen_height as int, minus_sign_timeout);
        }
        MovementMonitor {
            tracker_rectangle: RectangleTracker::new(),
            tracker_minus_sign: MinusSignTracker::new(),
            monitoring_rectangle: true,
            last_event_ns: start_ns,
            done: false,
            timeout_at_ns: None,
            screen_width,
            screen_height,
            minus_sign_timeout,
            actions: Ghost(Seq::empty()),
        }
    }

    /// Whether the whole gesture has been recognised.
    pub fn is_done(&self) -> (b: bool)
        ensures
            b == self@.done,
    {
        self.done
    }

    /// Whether the rectangle (rather than the minus sign) is awaited.
    pub fn is_monitoring_rectangle(&self) -> (b: bool)
        ensures
            b == self@.monitoring_rectangle,
    {
        self.monitoring_rectangle
    }

    /// The rectangle tracker's corner count.
    pub fn rectangle_corner_count(&self) -> (n: i32)
        ensures
            n == self@.rect.count_corners,
    {
        self.tracker_rectangle.count_corners()
    }

    fn handle_rectangle_detection(&mut self, now_ns: u64, event: MouseEvent) -> (completed: bool)
        requires
            rect_wf(old(self)@.rect),
            old(self)@.rect.count_corners < i32::MAX,
        ensures
            ({
                let (r, c) = rect_step(old(self)@.rect, old(self)@.screen_width, old(self)@.screen_height, event);
                &&& completed == c
                &&& final(self)@ == if c {
                    MonitorModel {
                        rect: r,
                        minus: minus_initial(),
                        monitoring_rectangle: false,
                        timeout_at: if old(self)@.minus_sign_timeout {
                            Some(timeout_deadline(now_ns as int))
                        } else {
                            None
                        },
                        ..old(self)@
                    }
                } else {
                    MonitorModel { rect: r, ..old(self)@ }
                }
            }),
    {
        let completed = track_rectangle(&mut self.tracker_rectangle, self.screen_width, self.screen_height, event);
        if completed {
            self.monitoring_rectangle = false;
            self.tracker_minus_sign = MinusSignTracker::new();
            self.timeout_at_ns = if self.minus_sign_timeout {
                Some(now_ns.saturating_add(MINUS_SIGN_TIMEOUT_NS))
            } else {
                None
            };
        }
        completed
    }

    fn handle_minus_sign_detection(&mut self, now_ns: u64, event: MouseEvent) -> (action: MonitorAction)
        ensures
            ({
                let (n, found) = minus_step(old(self)@.minus, old(self)@.screen_width, event);
                if found {
                    &&& action == MonitorAction::MinusSignDetected
                    &&& final(self)@ == (MonitorModel { minus: n, done: true, ..old(self)@ })
                } else if old(self)@.timeout_at matches Some(t) && now_ns >= t {
                    &&& action == MonitorAction::TimedOut
                    &&& final(self)@ == (MonitorModel { minus: n, monitoring_rectangle: true, timeout_at: None, ..old(self)@ })
                } else {
                    &&& action == MonitorAction::Followed
                    &&& final(self)@ == (MonitorModel { minus: n, ..old(self)@ })
                }
            }),
    {
        if detect_minus_sign(&mut self.tracker_minus_sign, self.screen_width, self.screen_height, event) {
            self.done = true;
            MonitorAction::MinusSignDetected
        } else {
            let timed_out = match self.timeout_at_ns {
                Some(t) => now_ns >= t,
                None => false,
            };
            if timed_out {
                self.timeout_at_ns = None;
                self.monitoring_rectangle = true;
                MonitorAction::TimedOut
            } else {
                MonitorAction::Followed
            }
        }
    }

    fn decide(&mut self, now_ns: u64, event: MouseEvent) -> (action: MonitorAction)
        requires
            rect_wf(old(self)@.rect),
            old(self)@.rect.count_corners < i32::MAX,
        ensures
            (final(self)@, action) == monitor_decide(old(self)@, now_ns as int, event),
    {
        if self.done {
            return MonitorAction::Ignored;
        }
        if now_ns < self.last_event_ns || now_ns - self.last_event_ns < DEBOUNCE_INTERVAL_NS {
            return MonitorAction::Ignored;
        }
        self.last_event_ns = now_ns;
        if self.monitoring_rectangle {
            if self.handle_rectangle_detection(now_ns, event) {
                MonitorAction::RectangleCompleted
            } else {
                MonitorAction::Followed
            }
        } else {
            self.handle_minus_sign_detection(now_ns, event)
        }
    }

    /// Handles one input event that arrived at `now_ns` and records what the
    /// loop has to do. The rectangle tracker's corner count must leave room
    /// for one more corner.
    pub fn on_event(&mut self, now_ns: u64, event: MouseEvent) -> (action: MonitorAction)
        requires
            monitor_wf(old(self)@),
            old(self)@.rect.count_corners < i32::MAX,
        ensures
            (final(self)@, action) == monitor_step(old(self)@, now_ns as int, event),
            monitor_wf(final(self)@),
    {
        proof {
            lemma_monitor_preserves_wf(self@, now_ns as int, event);
        }
        let action = self.decide(now_ns, event);
        self.actions = Ghost(self.actions@.push(action));
        action
    }
}


/// Action `a` occurs among `acts`.
pub open spec fn reported(acts: Seq<MonitorAction>, a: MonitorAction) -> bool {
    exists|i: int| 0 <= i < acts.len() && acts[i] == a
}

/// Every action after a detected minus sign is `Ignored`.
pub open spec fn nothing_after_minus_sign(acts: Seq<MonitorAction>) -> bool {
    forall|i: int, j: int|
        0 <= i < j < acts.len() && #[trigger] acts[i] == MonitorAction::MinusSignDetected
            ==> #[trigger] acts[j] == MonitorAction::Ignored
}

/// Every detected minus sign comes after a completed rectangle.
pub open spec fn minus_sign_after_rectangle(acts: Seq<MonitorAction>) -> bool {
    forall|j: int|
        0 <= j < acts.len() && #[trigger] acts[j] == MonitorAction::MinusSignDetected
            ==> exists|i: int| 0 <= i < j && acts[i] == MonitorAction::RectangleCompleted
}

/// The record of actions `acts` tells the gesture's story, for a monitor
/// that is `done` or not and awaits the rectangle (`monitoring_rectangle`) or
/// not: it is done exactly when a minus sign was reported, after which every
/// event was ignored (so it is reported at most once); each reported minus
/// sign came after a completed rectangle; and the minus sign is awaited only
/// after a completed rectangle.
#[verifier::opaque]
pub open spec fn story(acts: Seq<MonitorAction>, done: bool, monitoring_rectangle: bool) -> bool {
    &&& done <==> reported(acts, MonitorAction::MinusSignDetected)
    &&& nothing_after_minus_sign(acts)
    &&& minus_sign_after_rectangle(acts)
    &&& !monitoring_rectangle ==> reported(acts, MonitorAction::RectangleCompleted)
}

/// The consistency of every reachable monitor state: the rectangle tracker
/// is consistent; a finished monitor awaits no rectangle and has recognised
/// the minus sign; and the record of actions tells the gesture's story (see
/// `story`).
pub open spec fn monitor_wf(m: MonitorModel) -> bool {
    &&& rect_wf(m.rect)
    &&& m.done ==> !m.monitoring_rectangle && m.minus.is_minus_sign
    &&& story(m.actions, m.done, m.monitoring_rectangle)
}

proof fn lemma_reported_push(acts: Seq<MonitorAction>, a: MonitorAction, b: MonitorAction)
    ensures
        reported(acts.push(a), b) <==> (reported(acts, b) || a == b),
{
    let acts2 = acts.push(a);
    if reported(acts, b) {
        let i = choose|i: int| 0 <= i < acts.len() && acts[i] == b;
        assert(acts2[i] == b);
    }
    if a == b {
        assert(acts2[acts.len() as int] == b);
    }
    if reported(acts2, b) && a != b {
        let i = choose|i: int| 0 <= i < acts2.len() && acts2[i] == b;
        assert(acts2[i] == acts[i]);
    }
}

proof fn lemma_nothing_after_push(acts: Seq<MonitorAction>, a: MonitorAction)
    requires
        nothing_after_minus_sign(acts),
        reported(acts, MonitorAction::MinusSignDetected) ==> a == MonitorAction::Ignored,
    ensures
        nothing_after_minus_sign(acts.push(a)),
{
    let acts2 = acts.push(a);
    assert forall|i: int, j: int|
        0 <= i < j < acts2.len() && #[trigger] acts2[i] == MonitorAction::MinusSignDetected implies #[trigger] acts2[j]
            == MonitorAction::Ignored by {
        assert(acts2[i] == acts[i]);
        if j < acts.len() {
            assert(acts2[j] == acts[j]);
        } else {
            assert(reported(acts, MonitorAction::MinusSignDetected));
        }
    }
}

proof fn lemma_minus_after_push(acts: Seq<MonitorAction>, a: MonitorAction)
    requires
        minus_sign_after_rectangle(acts),
        a == MonitorAction::MinusSignDetected ==> reported(acts, MonitorAction::RectangleCompleted),
    ensures
        minus_sign_after_rectangle(acts.push(a)),
{
    let acts2 = acts.push(a);
    assert forall|j: int| 0 <= j < acts2.len() && #[trigger] acts2[j] == MonitorAction::MinusSignDetected implies exists|
        i: int,
    | 0 <= i < j && acts2[i] == MonitorAction::RectangleCompleted by {
        if j < acts.len() {
            assert(acts2[j] == acts[j]);
            let i = choose|i: int| 0 <= i < j && acts[i] == MonitorAction::RectangleCompleted;
            assert(acts2[i] == acts[i]);
        } else {
            let i = choose|i: int| 0 <= i < acts.len() && acts[i] == MonitorAction::RectangleCompleted;
            assert(acts2[i] == acts[i]);
        }
    }
}

/// Recording one more action keeps the story consistent when the action
/// changes the phases as the monitor's steps do.
proof fn lemma_story_push(
    acts: Seq<MonitorAction>,
    a: MonitorAction,
    done: bool,
    done2: bool,
    mon: bool,
    mon2: bool,
)
    requires
        story(acts, done, mon),
        (mon && !mon2) <==> a == MonitorAction::RectangleCompleted,
        (!done && done2) <==> a == MonitorAction::MinusSignDetected,
        done ==> done2 && a == MonitorAction::Ignored,
        a == MonitorAction::MinusSignDetected ==> !mon && !done,
    ensures
        story(acts.push(a), done2, mon2),
{
    reveal(story);
    lemma_reported_push(acts, a, MonitorAction::MinusSignDetected);
    lemma_reported_push(acts, a, MonitorAction::RectangleCompleted);
    lemma_nothing_after_push(acts, a);
    lemma_minus_after_push(acts, a);
}

/// A fresh monitor is consistent.
pub proof fn lemma_monitor_initial_wf(start: int, w: int, h: int, minus_sign_timeout: bool)
    ensures
        monitor_wf(monitor_initial(start, w, h, minus_sign_timeout)),
{
    reveal(story);
}

/// Every event keeps the monitor consistent.
pub proof fn lemma_monitor_preserves_wf(m: MonitorModel, now: int, ev: MouseEvent)
    requires
        monitor_wf(m),
    ensures
        monitor_wf(monitor_step(m, now, ev).0),
{
    lemma_rect_step_preserves_wf(m.rect, m.screen_width, m.screen_height, ev);
    lemma_phase_changes(m, now, ev);
    let (m2, a) = monitor_step(m, now, ev);
    lemma_story_push(m.actions, a, m.done, m2.done, m.monitoring_rectangle, m2.monitoring_rectangle);
}

/// Once the gesture is complete, every further event is dropped and changes
/// nothing but the record of actions.
pub proof fn lemma_done_is_final(m: MonitorModel, now: int, ev: MouseEvent)
    requires
        m.done,
    ensures
        monitor_step(m, now, ev) == (MonitorModel { actions: m.actions.push(MonitorAction::Ignored), ..m }, MonitorAction::Ignored),
{
}

/// An event that comes less than the debounce interval after the last
/// accepted one is dropped and changes nothing but the record of actions; an
/// accepted event becomes the last accepted one.
pub proof fn lemma_debounce(m: MonitorModel, now: int, ev: MouseEvent)
    ensures
        now < m.last_event + DEBOUNCE_INTERVAL_NS ==> monitor_step(m, now, ev) == (
        MonitorModel { actions: m.actions.push(MonitorAction::Ignored), ..m },
        MonitorAction::Ignored,
        ),
        monitor_step(m, now, ev).1 != MonitorAction::Ignored ==> monitor_step(m, now, ev).0.last_event == now,
        monitor_step(m, now, ev).1 == MonitorAction::Ignored <==> monitor_ignores(m, now),
        monitor_step(m, now, ev).0.actions == m.actions.push(monitor_step(m, now, ev).1),
{
}

/// The phases change only through the reported actions: the minus sign is
/// awaited after a completed rectangle, which starts the timeout when the
/// monitor has one; the rectangle is awaited again only after a timeout that
/// was started and has passed; and the gesture is complete only when the
/// minus sign is drawn while it is awaited.
pub proof fn lemma_phase_changes(m: MonitorModel, now: int, ev: MouseEvent)
    ensures
        ({
            let (m2, a) = monitor_step(m, now, ev);
            &&& (m.monitoring_rectangle && !m2.monitoring_rectangle) <==> a == MonitorAction::RectangleCompleted
            &&& (!m.monitoring_rectangle && m2.monitoring_rectangle) <==> a == MonitorAction::TimedOut
            &&& (!m.done && m2.done) <==> a == MonitorAction::MinusSignDetected
            &&& m.done ==> m2.done && a == MonitorAction::Ignored
            &&& a == MonitorAction::RectangleCompleted ==> {
                &&& m.monitoring_rectangle
                &&& m2.minus == minus_initial()
                &&& m2.timeout_at == if m.minus_sign_timeout {
                    Some(timeout_deadline(now))
                } else {
                    None
                }
            }
            &&& a == MonitorAction::MinusSignDetected ==> !m.monitoring_rectangle && !m.done
            &&& a == MonitorAction::TimedOut ==> (m.timeout_at matches Some(t) && now >= t)
        }),
{
}

/// Without a started timeout, the monitor keeps awaiting the minus sign once
/// the rectangle has been drawn.
pub proof fn lemma_no_timeout_no_return(m: MonitorModel, now: int, ev: MouseEvent)
    requires
        !m.monitoring_rectangle,
        m.timeout_at is None,
    ensures
        !monitor_step(m, now, ev).0.monitoring_rectangle,
        monitor_step(m, now, ev).0.timeout_at is None,
{
}


/// A sequence of timed events applied one after the other: the final state
/// and the actions reported, in order.
pub open spec fn monitor_run(m: MonitorModel, events: Seq<(int, MouseEvent)>) -> (MonitorModel, Seq<MonitorAction>)
    decreases events.len(),
{
    if events.len() == 0 {
        (m, seq![])
    } else {
        let (m1, a) = monitor_step(m, events[0].0, events[0].1);
        let (m2, rest) = monitor_run(m1, events.drop_first());
        (m2, seq![a] + rest)
    }
}

/// A run that completes the gesture reports the minus sign.
pub proof fn lemma_run_completion_reports_minus_sign(m: MonitorModel, events: Seq<(int, MouseEvent)>)
    requires
        !m.done,
        monitor_run(m, events).0.done,
    ensures
        exists|j: int| 0 <= j < monitor_run(m, events).1.len() && monitor_run(m, events).1[j] == MonitorAction::MinusSignDetected,
    decreases events.len(),
{
    let (m1, a) = monitor_step(m, events[0].0, events[0].1);
    let acts = monitor_run(m, events).1;
    let rest = monitor_run(m1, events.drop_first()).1;
    assert(acts == seq![a] + rest);
    if a == MonitorAction::MinusSignDetected {
        assert(acts[0] == MonitorAction::MinusSignDetected);
    } else {
        lemma_phase_changes(m, events[0].0, events[0].1);
        lemma_run_completion_reports_minus_sign(m1, events.drop_first());
        let j: int = choose|j: int| 0 <= j < rest.len() && rest[j] == MonitorAction::MinusSignDetected;
        assert(acts[j + 1] == MonitorAction::MinusSignDetected);
    }
}

/// The gestures come in order: a run that starts out awaiting the rectangle
/// and ends with the gesture complete has reported a completed rectangle
/// before the minus sign.
pub proof fn lemma_run_gesture_order(m: MonitorModel, events: Seq<(int, MouseEvent)>)
    requires
        !m.done,
        m.monitoring_rectangle,
        monitor_run(m, events).0.done,
    ensures
        exists|i: int, j: int|
            0 <= i < j < monitor_run(m, events).1.len()
                && monitor_run(m, events).1[i] == MonitorAction::RectangleCompleted
                && monitor_run(m, events).1[j] == MonitorAction::MinusSignDetected,
    decreases events.len(),
{
    let (m1, a) = monitor_step(m, events[0].0, events[0].1);
    let acts = monitor_run(m, events).1;
    let rest = monitor_run(m1, events.drop_first()).1;
    assert(acts == seq![a] + rest);
    lemma_phase_changes(m, events[0].0, events[0].1);
    if a == MonitorAction::RectangleCompleted {
        lemma_run_completion_reports_minus_sign(m1, events.drop_first());
        let j: int = choose|j: int| 0 <= j < rest.len() && rest[j] == MonitorAction::MinusSignDetected;
        assert(acts[0] == MonitorAction::RectangleCompleted && acts[j + 1] == MonitorAction::MinusSignDetected);
    } else {
        lemma_run_gesture_order(m1, events.drop_first());
        let (i, j) = choose|i: int, j: int|
            0 <= i < j < rest.len() && rest[i] == MonitorAction::RectangleCompleted
                && rest[j] == MonitorAction::MinusSignDetected;
        assert(acts[i + 1] == MonitorAction::RectangleCompleted && acts[j + 1] == MonitorAction::MinusSignDetected);
    }
}

/// The record of a monitor after a run is its record before the run
/// followed by the actions the run reported.
pub proof fn lemma_run_record(m: MonitorModel, events: Seq<(int, MouseEvent)>)
    ensures
        monitor_run(m, events).0.actions == m.actions + monitor_run(m, events).1,
    decreases events.len(),
{
    if events.len() == 0 {
        assert(m.actions + seq![] =~= m.actions);
    } else {
        let (m1, a) = monitor_step(m, events[0].0, events[0].1);
        lemma_run_record(m1, events.drop_first());
        let rest = monitor_run(m1, events.drop_first()).1;
        assert(m.actions.push(a) + rest =~= m.actions + (seq![a] + rest));
    }
}

/// A run keeps the monitor consistent.
pub proof fn lemma_run_wf(m: MonitorModel, events: Seq<(int, MouseEvent)>)
    requires
        monitor_wf(m),
    ensures
        monitor_wf(monitor_run(m, events).0),
    decreases events.len(),
{
    if events.len() > 0 {
        let (m1, a) = monitor_step(m, events[0].0, events[0].1);
        lemma_monitor_preserves_wf(m, events[0].0, events[0].1);
        lemma_run_wf(m1, events.drop_first());
    }
}

/// What the record of every consistent monitor says (every monitor made by
/// `new` and fed only through `on_event`, after any number of events, is
/// consistent and its record `acts` tells the story, see `monitor_wf`): the
/// minus sign was reported exactly when the gesture is complete; every
/// action after it is `Ignored`, so it is reported at most once; and it is
/// reported only after a completed rectangle.
pub proof fn lemma_gesture_story(acts: Seq<MonitorAction>, done: bool, monitoring_rectangle: bool)
    requires
        story(acts, done, monitoring_rectangle),
    ensures
        done <==> reported(acts, MonitorAction::MinusSignDetected),
        nothing_after_minus_sign(acts),
        minus_sign_after_rectangle(acts),
{
    reveal(story);
}

/// In the rectangle phase, an accepted event goes to the rectangle tracker
/// with the monitor's screen width and height, and the rectangle is reported
/// completed exactly when that tracker reports it.
pub proof fn lemma_rectangle_phase(m: MonitorModel, now: int, ev: MouseEvent)
    requires
        !monitor_ignores(m, now),
        m.monitoring_rectangle,
    ensures
        ({
            let (m1, a) = monitor_step(m, now, ev);
            let (r, completed) = rect_step(m.rect, m.screen_width, m.screen_height, ev);
            &&& m1.rect == r
            &&& m1.minus == if completed { minus_initial() } else { m.minus }
            &&& a == MonitorAction::RectangleCompleted <==> completed
            &&& !completed ==> a == MonitorAction::Followed
        }),
{
}

/// In the minus-sign phase, an accepted pointer move completes the gesture
/// exactly when it continues a stroke, keeps within the tolerance of the
/// stroke's starting height and lies at least a fifth of the screen width to
/// the right of the stroke's start; the rectangle tracker is left alone.
pub proof fn lemma_minus_sign_phase(m: MonitorModel, now: int, x: i32, y: i32)
    requires
        !monitor_ignores(m, now),
        !m.monitoring_rectangle,
    ensures
        ({
            let (m1, a) = monitor_step(m, now, MouseEvent::MouseMove { x, y });
            &&& m1.rect == m.rect
            &&& a == MonitorAction::MinusSignDetected <==> (m.minus.is_tracking && -TOLERANCE < m.minus.initial_y - y
                < TOLERANCE && 5 * (x - m.minus.initial_x) >= m.screen_width)
            &&& a == MonitorAction::MinusSignDetected <==> m1.done
        }),
{
}

} // verus!
