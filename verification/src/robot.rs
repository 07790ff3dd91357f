//! The tennis-hunting behaviour: how a detected ball is turned into motor
//! and arm commands, and the bookkeeping of the capture loop.
//!
//! The decisions are made here; executing them (driving the motors, moving
//! the arm, sleeping) is the caller's work.
use std::sync::atomic::AtomicBool;
use std::sync::atomic::Ordering;
use vstd::prelude::*;

verus! {

/// Frame width, in pixels, at which the centering margin is `CENTER_MARGIN`.
pub const REFERENCE_FRAME_WIDTH: i32 = 640;

/// Horizontal distance, in pixels at the reference width, within which the
/// ball counts as centered.
pub const CENTER_MARGIN: i32 = 35;

/// Longest turning pulse, in microseconds.
pub const TURN_PULSE_MAX_US: u64 = 500_000;

/// Shortest turning pulse, in microseconds.
pub const TURN_PULSE_MIN_US: u64 = 75_000;

/// Wheel speed while chasing a centered ball.
pub const CHASE_SPEED: i32 = 56;

/// Wheel speed while aligning with the ball.
pub const TURN_SPEED: i32 = 18;

/// Wheel speed while spinning in place to search for a ball.
pub const IDLE_SPEED: i32 = 18;

/// Consecutive close, centered sightings needed before grabbing.
pub const GRAB_CONFIRM_THRESHOLD: i32 = 5;

/// Wheel speed when backing away from a ball that is too close.
pub const BACKWARD_SPEED: i32 = 18;

/// Duration of the backing-away pulse, in microseconds.
pub const BACKWARD_PULSE_US: u64 = 200_000;

/// Wheel speed of the left turns made before grabbing.
pub const GRAB_LEFT_TURN_SPEED: i32 = 18;

/// Duration of one left turn made before grabbing, in microseconds.
pub const GRAB_LEFT_TURN_US: u64 = 150_000;

/// Number of left turns made before grabbing.
pub const GRAB_LEFT_TURN_COUNT: i32 = 4;

/// Pause after each left turn, in microseconds.
pub const GRAB_TURN_PAUSE_US: u64 = 100_000;

/// How long the arm holds the grab before releasing, in microseconds.
pub const ARM_GRAB_HOLD_US: u64 = 2_000_000;

/// Pause after releasing and after returning to the grab position, in microseconds.
pub const ARM_SETTLE_US: u64 = 1_000_000;

/// Pause after a failed capture or inference before the next frame, in microseconds.
pub const RETRY_DELAY_US: u64 = 100_000;

/// What the robot is doing.
#[derive(Clone, Copy, Debug, PartialEq, Eq, Structural)]
pub enum RobotStatus {
    ChaseTennis,
    GrabTennis,
}

/// The state the hunter keeps from one frame to the next.
#[derive(Clone, Copy, Debug, PartialEq, Eq, Structural)]
pub struct RobotState {
    pub status: RobotStatus,
    /// Horizontal position of the last ball seen.
    pub ball_cx: i32,
    /// Consecutive close, centered sightings so far.
    pub grab_confirm_count: i32,
}

impl RobotState {
    /// The state the hunter keeps between frames: the confirmation count
    /// never reaches the threshold, since reaching it triggers the grab.
    pub open spec fn well_formed(self) -> bool {
        0 <= self.grab_confirm_count < GRAB_CONFIRM_THRESHOLD
    }
}

impl Default for RobotState {
    /// The state at start-up: chasing, nothing seen, nothing confirmed.
    fn default() -> (s: RobotState)
        ensures
            s == (RobotState { status: RobotStatus::ChaseTennis, ball_cx: 0, grab_confirm_count: 0 }),
            s.well_formed(),
    {
        RobotState { status: RobotStatus::ChaseTennis, ball_cx: 0, grab_confirm_count: 0 }
    }
}

/// How much of the frame the ball fills, as judged against the grab thresholds.
#[derive(Clone, Copy, Debug, PartialEq, Eq, Structural)]
pub enum Proximity {
    /// Below the grab area.
    Far,
    /// At or above the grab area, below the too-close area.
    Near,
    /// At or above the too-close area.
    TooClose,
}

/// The largest ball of a frame, reduced to what the decision reads.
#[derive(Clone, Copy, Debug, PartialEq, Eq, Structural)]
pub struct Sighting {
    /// Horizontal position of the ball's box, in pixels.
    pub ball_cx: i32,
    /// Width of the frame, in pixels.
    pub image_w: i32,
    pub proximity: Proximity,
    /// The turning pulse for the ball's size before it is limited to
    /// `TURN_PULSE_MIN_US..=TURN_PULSE_MAX_US`.
    pub raw_pulse_us: u64,
}

/// One step of the work that a decision asks for, carried out in order.
#[derive(Clone, Copy, Debug, PartialEq, Eq, Structural)]
pub enum Action {
    /// Drive the left and right wheels at the given signed speeds.
    Drive { left: i32, right: i32 },
    Forward(i32),
    Backward(i32),
    /// Stop the wheels.
    Standby,
    /// Wait the given number of microseconds.
    Sleep(u64),
    ArmGrab,
    ArmRelease,
    ArmGrabPos,
}

/// Where the ball stands relative to the middle of the frame.
#[derive(Clone, Copy, Debug, PartialEq, Eq, Structural)]
pub struct Aim {
    /// Ball position minus the frame's middle column.
    pub offset: i32,
    /// Whether the ball is within the centering margin.
    pub centered: bool,
}

// ---------------------------------------------------------------------------
// Mathematical model
// ---------------------------------------------------------------------------

/// Half of `w`, rounded toward zero.
pub open spec fn half_width(w: int) -> int {
    if w >= 0 {
        w / 2
    } else {
        -((-w) / 2)
    }
}

/// `CENTER_MARGIN` scaled from the reference width to `image_w`, rounded to
/// the nearest integer (halves up), and at least 1.
pub open spec fn center_margin_for(image_w: int) -> int {
    let scaled = (CENTER_MARGIN * image_w + REFERENCE_FRAME_WIDTH / 2) / (REFERENCE_FRAME_WIDTH as int);
    if scaled < 1 {
        1
    } else {
        scaled
    }
}

/// `raw` limited to the range of turning pulses.
pub open spec fn clamped_pulse(raw: u64) -> u64 {
    if raw < TURN_PULSE_MIN_US {
        TURN_PULSE_MIN_US
    } else if raw > TURN_PULSE_MAX_US {
        TURN_PULSE_MAX_US
    } else {
        raw
    }
}

pub open spec fn offset_of(ball_cx: i32, image_w: i32) -> int {
    ball_cx - half_width(image_w as int)
}

pub open spec fn abs(x: int) -> int {
    if x < 0 {
        -x
    } else {
        x
    }
}

pub open spec fn aim_of(ball_cx: i32, image_w: i32) -> Aim {
    Aim {
        offset: offset_of(ball_cx, image_w) as i32,
        centered: abs(offset_of(ball_cx, image_w)) <= center_margin_for(image_w as int),
    }
}

/// The offsets for which `aim` and `handle_detections` are defined: the
/// offset and its magnitude fit in an `i32`.
pub open spec fn aim_in_range(ball_cx: i32, image_w: i32) -> bool {
    i32::MIN < offset_of(ball_cx, image_w) <= i32::MAX
}

/// Turn toward the ball for `pulse_us`, then stop.
pub open spec fn align_plan(offset: i32, pulse_us: u64) -> Seq<Action> {
    seq![
        if offset < 0 {
            Action::Drive { left: (-TURN_SPEED) as i32, right: TURN_SPEED }
        } else {
            Action::Drive { left: TURN_SPEED, right: (-TURN_SPEED) as i32 }
        },
        Action::Sleep(pulse_us),
        Action::Standby,
    ]
}

/// Back away from a ball that is too close, then stop.
pub open spec fn back_off_plan() -> Seq<Action> {
    seq![Action::Backward(BACKWARD_SPEED), Action::Sleep(BACKWARD_PULSE_US), Action::Standby]
}

/// One of the left turns made before grabbing.
pub open spec fn left_turn_plan() -> Seq<Action> {
    seq![
        Action::Drive { left: (-GRAB_LEFT_TURN_SPEED) as i32, right: GRAB_LEFT_TURN_SPEED },
        Action::Sleep(GRAB_LEFT_TURN_US),
        Action::Standby,
        Action::Sleep(GRAB_TURN_PAUSE_US),
    ]
}

/// `s` repeated `n` times.
pub open spec fn repeated(s: Seq<Action>, n: nat) -> Seq<Action>
    decreases n,
{
    if n == 0 {
        Seq::empty()
    } else {
        repeated(s, (n - 1) as nat) + s
    }
}

/// Close the arm on the ball, let it go, and return to the grab position.
pub open spec fn arm_cycle_plan() -> Seq<Action> {
    seq![
        Action::ArmGrab,
        Action::Sleep(ARM_GRAB_HOLD_US),
        Action::ArmRelease,
        Action::Sleep(ARM_SETTLE_US),
        Action::ArmGrabPos,
        Action::Sleep(ARM_SETTLE_US),
    ]
}

/// The grab itself, once confirmed.
pub open spec fn grab_plan(too_close: bool) -> Seq<Action> {
    (if too_close {
        back_off_plan()
    } else {
        Seq::empty()
    }) + repeated(left_turn_plan(), GRAB_LEFT_TURN_COUNT as nat) + arm_cycle_plan()
}

/// What one frame does to the hunter's state, and the actions it asks for.
pub open spec fn decide(state: RobotState, sighting: Option<Sighting>) -> (RobotState, Seq<Action>) {
    match sighting {
        None => (
            RobotState { status: RobotStatus::ChaseTennis, grab_confirm_count: 0, ..state },
            seq![Action::Drive { left: IDLE_SPEED, right: (-IDLE_SPEED) as i32 }],
        ),
        Some(s) => {
            let aim = aim_of(s.ball_cx, s.image_w);
            let near = s.proximity != Proximity::Far;
            let too_close = s.proximity == Proximity::TooClose;
            let pulse = clamped_pulse(s.raw_pulse_us);
            if near && aim.centered {
                let count = state.grab_confirm_count + 1;
                let first = if too_close {
                    back_off_plan()
                } else {
                    seq![Action::Standby]
                };
                if count >= GRAB_CONFIRM_THRESHOLD {
                    (
                        RobotState {
                            status: RobotStatus::ChaseTennis,
                            ball_cx: s.ball_cx,
                            grab_confirm_count: 0,
                        },
                        first + grab_plan(too_close),
                    )
                } else {
                    (
                        RobotState {
                            status: RobotStatus::GrabTennis,
                            ball_cx: s.ball_cx,
                            grab_confirm_count: count as i32,
                        },
                        first,
                    )
                }
            } else if near {
                (
                    RobotState { ball_cx: s.ball_cx, grab_confirm_count: 0, ..state },
                    align_plan(aim.offset, pulse),
                )
            } else {
                (
                    RobotState {
                        status: RobotStatus::ChaseTennis,
                        ball_cx: s.ball_cx,
                        grab_confirm_count: 0,
                    },
                    if aim.centered {
                        seq![Action::Forward(CHASE_SPEED)]
                    } else {
                        align_plan(aim.offset, pulse)
                    },
                )
            }
        },
    }
}

/// The inputs on which `decide` is what the hunter does: the ball's offset
/// can be taken, and a confirming frame can increment the count.
pub open spec fn decidable(state: RobotState, sighting: Option<Sighting>) -> bool {
    &&& sighting matches Some(s) ==> aim_in_range(s.ball_cx, s.image_w)
    &&& confirms(sighting) ==> state.grab_confirm_count < i32::MAX
}

// ---------------------------------------------------------------------------
// Executable decisions
// ---------------------------------------------------------------------------

/// The centering margin for a frame `image_w` pixels wide: `CENTER_MARGIN`
/// scaled from the reference width, rounded to the nearest pixel, at least 1.
pub fn scaled_center_margin(image_w: i32) -> (margin: i32)
    ensures
        margin == center_margin_for(image_w as int),
        margin >= 1,
        35 * image_w + 320 < 640 ==> margin == 1,
        35 * image_w + 320 >= 640 ==> 640 * margin <= 35 * image_w + 320 < 640 * margin + 640,
{
    if image_w <= 0 {
        return 1;
    }
    let scaled: i64 = (CENTER_MARGIN as i64 * image_w as i64 + (REFERENCE_FRAME_WIDTH / 2) as i64)
        / REFERENCE_FRAME_WIDTH as i64;
    if scaled < 1 {
        1
    } else {
        scaled as i32
    }
}

/// The turning pulse for a raw pulse length: limited to
/// `TURN_PULSE_MIN_US..=TURN_PULSE_MAX_US`.
pub fn clamp_turn_pulse(raw_us: u64) -> (pulse_us: u64)
    ensures
        pulse_us == clamped_pulse(raw_us),
        TURN_PULSE_MIN_US <= pulse_us <= TURN_PULSE_MAX_US,
{
    if raw_us < TURN_PULSE_MIN_US {
        TURN_PULSE_MIN_US
    } else if raw_us > TURN_PULSE_MAX_US {
        TURN_PULSE_MAX_US
    } else {
        raw_us
    }
}

/// Where a ball at `ball_cx` stands relative to the middle of a frame
/// `image_w` pixels wide.
pub fn aim(ball_cx: i32, image_w: i32) -> (a: Aim)
    requires
        aim_in_range(ball_cx, image_w),
    ensures
        a == aim_of(ball_cx, image_w),
        a.offset == ball_cx - half_width(image_w as int),
        a.centered <==> (abs(a.offset as int) <= 1 || 640 * abs(a.offset as int) <= 35 * image_w
            + 320),
{
    proof {
        lemma_centering(ball_cx, image_w);
    }
    let center = image_w / 2;
    let offset = ball_cx - center;
    let margin = scaled_center_margin(image_w);
    let magnitude = if offset < 0 {
        -offset
    } else {
        offset
    };
    Aim { offset, centered: magnitude <= margin }
}

/// Turn toward the ball (left when it is left of the middle) for
/// `pulse_us`, then stop.
pub fn align(offset: i32, pulse_us: u64) -> (plan: Vec<Action>)
    ensures
        plan@ == align_plan(offset, pulse_us),
{
    let mut plan: Vec<Action> = Vec::new();
    if offset < 0 {
        plan.push(Action::Drive { left: -TURN_SPEED, right: TURN_SPEED });
    } else {
        plan.push(Action::Drive { left: TURN_SPEED, right: -TURN_SPEED });
    }
    plan.push(Action::Sleep(pulse_us));
    plan.push(Action::Standby);
    plan
}

fn push_back_off(plan: &mut Vec<Action>)
    ensures
        final(plan)@ == old(plan)@ + back_off_plan(),
{
    plan.push(Action::Backward(BACKWARD_SPEED));
    plan.push(Action::Sleep(BACKWARD_PULSE_US));
    plan.push(Action::Standby);
}

fn push_grab(plan: &mut Vec<Action>, too_close: bool)
    ensures
        final(plan)@ == old(plan)@ + grab_plan(too_close),
{
    let ghost start = plan@;
    if too_close {
        push_back_off(plan);
    }
    let ghost prefix = plan@;
    assert(prefix == start + (if too_close {
        back_off_plan()
    } else {
        Seq::empty()
    }));
    let mut turns: i32 = 0;
    while turns < GRAB_LEFT_TURN_COUNT
        invariant
            0 <= turns <= GRAB_LEFT_TURN_COUNT,
            plan@ == prefix + repeated(left_turn_plan(), turns as nat),
        decreases GRAB_LEFT_TURN_COUNT - turns,
    {
        let ghost before = plan@;
        plan.push(Action::Drive { left: -GRAB_LEFT_TURN_SPEED, right: GRAB_LEFT_TURN_SPEED });
        plan.push(Action::Sleep(GRAB_LEFT_TURN_US));
        plan.push(Action::Standby);
        plan.push(Action::Sleep(GRAB_TURN_PAUSE_US));
        assert(plan@ == before + left_turn_plan());
        assert(repeated(left_turn_plan(), (turns + 1) as nat) == repeated(
            left_turn_plan(),
            turns as nat,
        ) + left_turn_plan());
        turns = turns + 1;
    }
    let ghost turned = plan@;
    plan.push(Action::ArmGrab);
    plan.push(Action::Sleep(ARM_GRAB_HOLD_US));
    plan.push(Action::ArmRelease);
    plan.push(Action::Sleep(ARM_SETTLE_US));
    plan.push(Action::ArmGrabPos);
    plan.push(Action::Sleep(ARM_SETTLE_US));
    assert(plan@ == turned + arm_cycle_plan());
}

/// Decide what to do with one frame: `None` when no ball was detected,
/// else the largest ball. Updates the hunter's state and returns the
/// actions to carry out, in order.
pub fn handle_detections(robot: &mut RobotState, sighting: Option<Sighting>) -> (plan: Vec<Action>)
    requires
        decidable(*old(robot), sighting),
    ensures
        (*final(robot), plan@) == decide(*old(robot), sighting),
        old(robot).well_formed() ==> final(robot).well_formed(),
{
    match sighting {
        None => {
            robot.grab_confirm_count = 0;
            robot.status = RobotStatus::ChaseTennis;
            let mut plan: Vec<Action> = Vec::new();
            plan.push(Action::Drive { left: IDLE_SPEED, right: -IDLE_SPEED });
            plan
        },
        Some(s) => {
            let a = aim(s.ball_cx, s.image_w);
            let pulse_us = clamp_turn_pulse(s.raw_pulse_us);
            let near = match s.proximity {
                Proximity::Far => false,
                _ => true,
            };
            let too_close = match s.proximity {
                Proximity::TooClose => true,
                _ => false,
            };
            robot.ball_cx = s.ball_cx;
            if near && a.centered {
                robot.status = RobotStatus::GrabTennis;
                robot.grab_confirm_count = robot.grab_confirm_count + 1;
                let mut plan: Vec<Action> = Vec::new();
                if too_close {
                    push_back_off(&mut plan);
                } else {
                    plan.push(Action::Standby);
                }
                if robot.grab_confirm_count >= GRAB_CONFIRM_THRESHOLD {
                    push_grab(&mut plan, too_close);
                    robot.grab_confirm_count = 0;
                    robot.status = RobotStatus::ChaseTennis;
                }
                plan
            } else if near {
                robot.grab_confirm_count = 0;
                align(a.offset, pulse_us)
            } else {
                robot.grab_confirm_count = 0;
                robot.status = RobotStatus::ChaseTennis;
                if a.centered {
                    let mut plan: Vec<Action> = Vec::new();
                    plan.push(Action::Forward(CHASE_SPEED));
                    plan
                } else {
                    align(a.offset, pulse_us)
                }
            }
        },
    }
}

// ---------------------------------------------------------------------------
// Laws of the hunter
// ---------------------------------------------------------------------------

/// Centering, written out: the offset is the ball's column minus half the
/// frame width (rounded toward zero), and the ball is centered when the
/// offset is at most 1 pixel either way, or when 640 times its size is at
/// most `35 * image_w + 320`, that is, within 35 pixels scaled from a
/// 640-pixel frame to this one and rounded to the nearest pixel. So a ball
/// 50 pixels off the middle of a 1280-pixel frame is centered, and one 19
/// pixels off the middle of a 320-pixel frame is not.
pub proof fn lemma_centering(ball_cx: i32, image_w: i32)
    requires
        aim_in_range(ball_cx, image_w),
    ensures
        ({
            let middle: int = if image_w >= 0 {
                image_w / 2
            } else {
                -((-image_w) / 2)
            };
            let off: int = ball_cx - middle;
            let size: int = if off < 0 {
                -off
            } else {
                off
            };
            &&& aim_of(ball_cx, image_w).offset == off
            &&& aim_of(ball_cx, image_w).centered <==> (size <= 1 || 640 * size <= 35 * image_w
                + 320)
        }),
{
    let off = offset_of(ball_cx, image_w);
    let size = abs(off);
    let x: int = 35 * image_w + 320;
    let q = x / 640;
    assert(size <= q <==> 640 * size <= x) by (nonlinear_arith)
        requires
            q == x / 640,
            size >= 0,
    {
        if size <= q {
            assert(640 * size <= 640 * q);
        } else {
            assert(size >= q + 1);
            assert(640 * size >= 640 * q + 640);
        }
    }
}

/// A ball that is not centered, near or far, is turned toward: left (left
/// wheel back, right wheel forward) when it is left of the middle, right
/// otherwise, for the raw pulse limited to `TURN_PULSE_MIN_US..=
/// TURN_PULSE_MAX_US`, and then the wheels stop; the confirmation count is
/// cleared and the ball's column is remembered.
pub proof fn lemma_turns_toward_ball(state: RobotState, s: Sighting)
    requires
        aim_in_range(s.ball_cx, s.image_w),
        !aim_of(s.ball_cx, s.image_w).centered,
    ensures
        ({
            let middle: int = if s.image_w >= 0 {
                s.image_w / 2
            } else {
                -((-s.image_w) / 2)
            };
            let pulse: u64 = if s.raw_pulse_us < TURN_PULSE_MIN_US {
                TURN_PULSE_MIN_US
            } else if s.raw_pulse_us > TURN_PULSE_MAX_US {
                TURN_PULSE_MAX_US
            } else {
                s.raw_pulse_us
            };
            let plan = decide(state, Some(s)).1;
            &&& plan.len() == 3
            &&& plan[0] == if s.ball_cx < middle {
                Action::Drive { left: (-18) as i32, right: 18 }
            } else {
                Action::Drive { left: 18, right: (-18) as i32 }
            }
            &&& plan[1] == Action::Sleep(pulse)
            &&& plan[2] == Action::Standby
            &&& decide(state, Some(s)).0.grab_confirm_count == 0
            &&& decide(state, Some(s)).0.ball_cx == s.ball_cx
        }),
{
    lemma_centering(s.ball_cx, s.image_w);
}

/// A frame without a ball spins the robot in place to search (left wheel
/// forward, right wheel back, at the idle speed) and nothing else; the
/// hunter goes back to chasing with nothing confirmed, and remembers the
/// last ball's column.
pub proof fn lemma_no_ball(state: RobotState)
    ensures
        decide(state, None).1 == seq![Action::Drive { left: 18, right: (-18) as i32 }],
        decide(state, None).0 == (RobotState {
            status: RobotStatus::ChaseTennis,
            ball_cx: state.ball_cx,
            grab_confirm_count: 0,
        }),
{
}

/// A far ball that is centered is chased straight ahead, and nothing else
/// is done; a near ball that is centered stops the wheels (backing away
/// first when it is too close) and counts one more confirmation.
pub proof fn lemma_centered_ball(state: RobotState, s: Sighting)
    requires
        state.well_formed(),
        aim_in_range(s.ball_cx, s.image_w),
        aim_of(s.ball_cx, s.image_w).centered,
    ensures
        s.proximity == Proximity::Far ==> decide(state, Some(s)).1 == seq![Action::Forward(56)],
        s.proximity == Proximity::Near ==> decide(state, Some(s)).1[0] == Action::Standby,
        s.proximity == Proximity::TooClose ==> decide(state, Some(s)).1[0] == Action::Backward(18),
        s.proximity != Proximity::Far ==> decide(state, Some(s)).0.grab_confirm_count == (
        state.grab_confirm_count + 1) % 5,
{
    let plan = decide(state, Some(s)).1;
    if s.proximity != Proximity::Far && state.grab_confirm_count + 1 >= 5 {
        let first = if s.proximity == Proximity::TooClose {
            back_off_plan()
        } else {
            seq![Action::Standby]
        };
        assert(plan == first + grab_plan(s.proximity == Proximity::TooClose));
        assert(plan[0] == first[0]);
    }
}

/// Whether a frame confirms the ball: one is seen, it is near (or too
/// close), and it is centered.
pub open spec fn confirms(sighting: Option<Sighting>) -> bool {
    sighting matches Some(s) && s.proximity != Proximity::Far && aim_of(s.ball_cx, s.image_w).centered
}

/// Whether a plan closes the arm on a ball.
pub open spec fn grabs(plan: Seq<Action>) -> bool {
    plan.contains(Action::ArmGrab)
}

/// The state after replaying `frames` in order from `state`.
pub open spec fn replay(state: RobotState, frames: Seq<Option<Sighting>>) -> RobotState
    decreases frames.len(),
{
    if frames.len() == 0 {
        state
    } else {
        decide(replay(state, frames.drop_last()), frames.last()).0
    }
}

/// The number of confirming frames at the end of `frames`.
pub open spec fn streak(frames: Seq<Option<Sighting>>) -> nat
    decreases frames.len(),
{
    if frames.len() == 0 {
        0
    } else if confirms(frames.last()) {
        streak(frames.drop_last()) + 1
    } else {
        0
    }
}

proof fn lemma_repeated_no_grab(n: nat)
    ensures
        !grabs(repeated(left_turn_plan(), n)),
    decreases n,
{
    if n > 0 {
        lemma_repeated_no_grab((n - 1) as nat);
        let a = repeated(left_turn_plan(), (n - 1) as nat);
        let b = left_turn_plan();
        assert forall|i: int| 0 <= i < (a + b).len() implies (a + b)[i] != Action::ArmGrab by {
            if i < a.len() {
                assert((a + b)[i] == a[i]);
            } else {
                assert((a + b)[i] == b[i - a.len()]);
            }
        }
    }
}

proof fn lemma_concat_grabs(a: Seq<Action>, b: Seq<Action>)
    ensures
        grabs(a + b) <==> grabs(a) || grabs(b),
{
    if grabs(a) {
        let i = choose|i: int| 0 <= i < a.len() && a[i] == Action::ArmGrab;
        assert((a + b)[i] == Action::ArmGrab);
    }
    if grabs(b) {
        let i = choose|i: int| 0 <= i < b.len() && b[i] == Action::ArmGrab;
        assert((a + b)[a.len() + i] == Action::ArmGrab);
    }
    if grabs(a + b) {
        let i = choose|i: int| 0 <= i < (a + b).len() && (a + b)[i] == Action::ArmGrab;
        if i < a.len() {
            assert(a[i] == Action::ArmGrab);
        } else {
            assert(b[i - a.len()] == Action::ArmGrab);
        }
    }
}

/// A frame closes the arm exactly when it confirms the ball and the ones
/// before it brought the count to one short of `GRAB_CONFIRM_THRESHOLD`;
/// every other frame leaves the arm alone.
pub proof fn lemma_grab_exactly_when_confirmed(state: RobotState, sighting: Option<Sighting>)
    requires
        state.well_formed(),
    ensures
        grabs(decide(state, sighting).1) <==> (confirms(sighting) && state.grab_confirm_count
            == GRAB_CONFIRM_THRESHOLD - 1),
{
    let plan = decide(state, sighting).1;
    lemma_repeated_no_grab(GRAB_LEFT_TURN_COUNT as nat);
    let back = back_off_plan();
    assert(!grabs(back)) by {
        assert(back[0] != Action::ArmGrab && back[1] != Action::ArmGrab && back[2] != Action::ArmGrab);
    }
    assert(grabs(arm_cycle_plan())) by {
        assert(arm_cycle_plan()[0] == Action::ArmGrab);
    }
    match sighting {
        None => {
            assert(!grabs(plan)) by {
                assert(plan[0] != Action::ArmGrab);
            }
        },
        Some(s) => {
            let aim = aim_of(s.ball_cx, s.image_w);
            let too_close = s.proximity == Proximity::TooClose;
            let first = if too_close {
                back
            } else {
                seq![Action::Standby]
            };
            assert(!grabs(first)) by {
                if !too_close {
                    assert(first[0] != Action::ArmGrab);
                }
            }
            let lead: Seq<Action> = if too_close {
                back
            } else {
                Seq::empty()
            };
            assert(!grabs(lead));
            let turns = repeated(left_turn_plan(), GRAB_LEFT_TURN_COUNT as nat);
            lemma_concat_grabs(lead, turns);
            lemma_concat_grabs(lead + turns, arm_cycle_plan());
            assert(grabs(grab_plan(too_close)));
            lemma_concat_grabs(first, grab_plan(too_close));
            let align = align_plan(aim.offset, clamped_pulse(s.raw_pulse_us));
            assert(!grabs(align)) by {
                assert(align[0] != Action::ArmGrab && align[1] != Action::ArmGrab && align[2]
                    != Action::ArmGrab);
            }
            let forward = seq![Action::Forward(CHASE_SPEED)];
            assert(!grabs(forward)) by {
                assert(forward[0] != Action::ArmGrab);
            }
        },
    }
}

/// Replaying frames from a well-formed state: the confirmation count is
/// the number of consecutive confirming frames at the end, counted modulo
/// `GRAB_CONFIRM_THRESHOLD`, and added to the starting count when every
/// frame confirms; the state stays well formed.
pub proof fn lemma_replay_counts_streak(state: RobotState, frames: Seq<Option<Sighting>>)
    requires
        state.well_formed(),
    ensures
        replay(state, frames).well_formed(),
        replay(state, frames).grab_confirm_count == if streak(frames) == frames.len() {
            (state.grab_confirm_count + frames.len()) % (GRAB_CONFIRM_THRESHOLD as int)
        } else {
            (streak(frames) as int) % (GRAB_CONFIRM_THRESHOLD as int)
        },
    decreases frames.len(),
{
    if frames.len() > 0 {
        let prefix = frames.drop_last();
        lemma_replay_counts_streak(state, prefix);
        let before = replay(state, prefix);
        let f = frames.last();
        if confirms(f) {
            assert(streak(frames) == streak(prefix) + 1);
        } else {
            assert(streak(frames) == 0);
            assert(streak(frames) != frames.len());
        }
    }
}

/// Starting from a state with nothing confirmed, a run of frames that all
/// confirm the ball grabs on the `GRAB_CONFIRM_THRESHOLD`-th frame and not
/// before, and leaves nothing confirmed.
pub proof fn lemma_grab_on_threshold_frame(state: RobotState, frames: Seq<Option<Sighting>>)
    requires
        state.well_formed(),
        state.grab_confirm_count == 0,
        frames.len() == GRAB_CONFIRM_THRESHOLD,
        forall|i: int| 0 <= i < frames.len() ==> confirms(#[trigger] frames[i]),
    ensures
        forall|k: int|
            0 <= k < frames.len() ==> (grabs(#[trigger] decide(replay(state, frames.take(k)), frames[k]).1)
                <==> k == GRAB_CONFIRM_THRESHOLD - 1),
        replay(state, frames).grab_confirm_count == 0,
{
    assert forall|k: int|
        0 <= k < frames.len() implies (grabs(#[trigger] decide(replay(state, frames.take(k)), frames[k]).1)
        <==> k == GRAB_CONFIRM_THRESHOLD - 1) by {
        let prefix = frames.take(k);
        lemma_all_confirm_streak(frames, k);
        lemma_replay_counts_streak(state, prefix);
        lemma_grab_exactly_when_confirmed(replay(state, prefix), frames[k]);
    }
    lemma_all_confirm_streak(frames, frames.len() as int);
    assert(frames.take(frames.len() as int) == frames);
    lemma_replay_counts_streak(state, frames);
}

proof fn lemma_all_confirm_streak(frames: Seq<Option<Sighting>>, k: int)
    requires
        0 <= k <= frames.len(),
        forall|i: int| 0 <= i < frames.len() ==> confirms(#[trigger] frames[i]),
    ensures
        streak(frames.take(k)) == k,
    decreases k,
{
    if k > 0 {
        lemma_all_confirm_streak(frames, k - 1);
        assert(frames.take(k).drop_last() == frames.take(k - 1));
        assert(frames.take(k).last() == frames[k - 1]);
    }
}

// ---------------------------------------------------------------------------
// The capture loop
// ---------------------------------------------------------------------------

/// Frame bookkeeping of the capture loop.
#[derive(Clone, Copy, Debug, PartialEq, Eq, Structural)]
pub struct FrameCounter {
    /// Frames begun, whether or not capture and inference succeeded.
    pub frame_idx: u64,
    /// Frames that went through capture and inference.
    pub frame_count: u64,
}

impl FrameCounter {
    /// Every completed frame was begun.
    pub open spec fn well_formed(self) -> bool {
        self.frame_count <= self.frame_idx
    }

    pub fn new() -> (c: FrameCounter)
        ensures
            c.frame_idx == 0,
            c.frame_count == 0,
    {
        FrameCounter { frame_idx: 0, frame_count: 0 }
    }

    /// Whether the loop runs another frame: not when a stop was requested,
    /// nor when `max_frames` frames have been begun. A frame that runs is
    /// counted as begun.
    pub fn begin_frame(&mut self, stop: bool, max_frames: Option<u64>) -> (run: bool)
        requires
            !stop && max_frames is None ==> old(self).frame_idx < u64::MAX,
        ensures
            run == (!stop && !(max_frames matches Some(m) && old(self).frame_idx >= m)),
            run ==> final(self).frame_idx == old(self).frame_idx + 1,
            !run ==> final(self).frame_idx == old(self).frame_idx,
            final(self).frame_count == old(self).frame_count,
            old(self).well_formed() ==> final(self).well_formed(),
            match max_frames {
                Some(m) => old(self).frame_idx <= m ==> final(self).frame_idx <= m,
                None => true,
            },
    {
        if stop {
            return false;
        }
        if let Some(max) = max_frames {
            if self.frame_idx >= max {
                return false;
            }
        }
        self.frame_idx = self.frame_idx + 1;
        true
    }

    /// Count a frame that went through capture and inference.
    pub fn complete_frame(&mut self)
        requires
            old(self).frame_count < u64::MAX,
        ensures
            final(self).frame_count == old(self).frame_count + 1,
            final(self).frame_idx == old(self).frame_idx,
            old(self).frame_count < old(self).frame_idx ==> final(self).well_formed(),
    {
        self.frame_count = self.frame_count + 1;
    }
}

// ---------------------------------------------------------------------------
// Stop requests
// ---------------------------------------------------------------------------

/// Whether a stop has been requested on `flag`. The flag is set from a
/// signal handler, so nothing is known of the answer.
pub fn stop_requested(flag: &AtomicBool) -> bool {
    flag.load(Ordering::SeqCst)
}

/// Request a stop on `flag`.
pub fn request_stop(flag: &AtomicBool) {
    flag.store(true, Ordering::SeqCst);
}

} // verus!
