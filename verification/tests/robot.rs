use akars::robot::{
    aim, align, clamp_turn_pulse, handle_detections, request_stop, scaled_center_margin,
    stop_requested, Action, FrameCounter, Proximity, RobotState, RobotStatus, Sighting,
    ARM_GRAB_HOLD_US, ARM_SETTLE_US, BACKWARD_PULSE_US, BACKWARD_SPEED, CHASE_SPEED,
    GRAB_LEFT_TURN_SPEED, GRAB_LEFT_TURN_US, GRAB_TURN_PAUSE_US, IDLE_SPEED, TURN_PULSE_MAX_US,
    TURN_PULSE_MIN_US, TURN_SPEED,
};
use std::sync::atomic::AtomicBool;

fn sighting(ball_cx: i32, proximity: Proximity, raw_pulse_us: u64) -> Sighting {
    Sighting { ball_cx, image_w: 640, proximity, raw_pulse_us }
}

fn grab_sequence(too_close: bool) -> Vec<Action> {
    let mut plan = Vec::new();
    if too_close {
        plan.push(Action::Backward(BACKWARD_SPEED));
        plan.push(Action::Sleep(BACKWARD_PULSE_US));
        plan.push(Action::Standby);
    }
    for _ in 0..4 {
        plan.push(Action::Drive { left: -GRAB_LEFT_TURN_SPEED, right: GRAB_LEFT_TURN_SPEED });
        plan.push(Action::Sleep(GRAB_LEFT_TURN_US));
        plan.push(Action::Standby);
        plan.push(Action::Sleep(GRAB_TURN_PAUSE_US));
    }
    plan.extend([
        Action::ArmGrab,
        Action::Sleep(ARM_GRAB_HOLD_US),
        Action::ArmRelease,
        Action::Sleep(ARM_SETTLE_US),
        Action::ArmGrabPos,
        Action::Sleep(ARM_SETTLE_US),
    ]);
    plan
}

#[test]
fn scales_center_margin() {
    assert_eq!(scaled_center_margin(640), 35);
    assert_eq!(scaled_center_margin(320), 18);
}

#[test]
fn center_margin_edges() {
    assert_eq!(scaled_center_margin(0), 1);
    assert_eq!(scaled_center_margin(-640), 1);
    assert_eq!(scaled_center_margin(1), 1);
    assert_eq!(scaled_center_margin(1920), 105);
    assert_eq!(scaled_center_margin(1280), 70);
    // 7 * 73 / 128 = 3.99..., 7 * 9 / 128 = 0.49...
    assert_eq!(scaled_center_margin(73), 4);
    assert_eq!(scaled_center_margin(9), 1);
    assert_eq!(scaled_center_margin(i32::MAX), 117_440_512);
}

#[test]
fn clamps_raw_turn_pulse() {
    assert_eq!(clamp_turn_pulse(0), TURN_PULSE_MIN_US);
    assert_eq!(clamp_turn_pulse(500_000_000), TURN_PULSE_MAX_US);
    assert_eq!(clamp_turn_pulse(200_000), 200_000);
    assert_eq!(clamp_turn_pulse(TURN_PULSE_MIN_US), TURN_PULSE_MIN_US);
    assert_eq!(clamp_turn_pulse(TURN_PULSE_MAX_US), TURN_PULSE_MAX_US);
}

#[test]
fn aim_measures_from_the_middle() {
    let a = aim(300, 640);
    assert_eq!(a.offset, -20);
    assert!(a.centered);
    let a = aim(356, 640);
    assert_eq!(a.offset, 36);
    assert!(!a.centered);
    let a = aim(355, 640);
    assert!(a.centered);
    // odd widths: the middle column is rounded down
    let a = aim(10, 21);
    assert_eq!(a.offset, 0);
    let a = aim(0, -21);
    assert_eq!(a.offset, 10);
}

#[test]
fn align_turns_toward_the_ball() {
    assert_eq!(
        align(-5, 90_000),
        vec![
            Action::Drive { left: -TURN_SPEED, right: TURN_SPEED },
            Action::Sleep(90_000),
            Action::Standby
        ]
    );
    assert_eq!(
        align(0, 75_000),
        vec![
            Action::Drive { left: TURN_SPEED, right: -TURN_SPEED },
            Action::Sleep(75_000),
            Action::Standby
        ]
    );
}

#[test]
fn no_ball_searches_and_resets() {
    let mut robot = RobotState { status: RobotStatus::GrabTennis, ball_cx: 7, grab_confirm_count: 3 };
    let plan = handle_detections(&mut robot, None);
    assert_eq!(plan, vec![Action::Drive { left: IDLE_SPEED, right: -IDLE_SPEED }]);
    assert_eq!(
        robot,
        RobotState { status: RobotStatus::ChaseTennis, ball_cx: 7, grab_confirm_count: 0 }
    );
}

#[test]
fn far_centered_ball_is_chased() {
    let mut robot = RobotState::default();
    let plan = handle_detections(&mut robot, Some(sighting(330, Proximity::Far, 0)));
    assert_eq!(plan, vec![Action::Forward(CHASE_SPEED)]);
    assert_eq!(robot.ball_cx, 330);
    assert_eq!(robot.status, RobotStatus::ChaseTennis);
}

#[test]
fn far_off_center_ball_is_aligned_with() {
    let mut robot = RobotState::default();
    let plan = handle_detections(&mut robot, Some(sighting(600, Proximity::Far, 1_000_000)));
    assert_eq!(plan, align(280, TURN_PULSE_MAX_US));
    assert_eq!(robot.status, RobotStatus::ChaseTennis);
    assert_eq!(robot.grab_confirm_count, 0);
}

#[test]
fn near_off_center_ball_keeps_status() {
    let mut robot = RobotState { status: RobotStatus::GrabTennis, ball_cx: 320, grab_confirm_count: 2 };
    let plan = handle_detections(&mut robot, Some(sighting(100, Proximity::Near, 10)));
    assert_eq!(plan, align(-220, TURN_PULSE_MIN_US));
    assert_eq!(
        robot,
        RobotState { status: RobotStatus::GrabTennis, ball_cx: 100, grab_confirm_count: 0 }
    );
}

#[test]
fn grab_on_fifth_confirmation() {
    let mut robot = RobotState::default();
    for k in 1..5 {
        let plan = handle_detections(&mut robot, Some(sighting(320, Proximity::Near, 0)));
        assert_eq!(plan, vec![Action::Standby]);
        assert_eq!(robot.grab_confirm_count, k);
        assert_eq!(robot.status, RobotStatus::GrabTennis);
    }
    let plan = handle_detections(&mut robot, Some(sighting(320, Proximity::Near, 0)));
    let mut expected = vec![Action::Standby];
    expected.extend(grab_sequence(false));
    assert_eq!(plan, expected);
    assert_eq!(robot, RobotState { status: RobotStatus::ChaseTennis, ball_cx: 320, grab_confirm_count: 0 });
}

#[test]
fn too_close_ball_backs_off() {
    let mut robot = RobotState::default();
    let plan = handle_detections(&mut robot, Some(sighting(320, Proximity::TooClose, 0)));
    assert_eq!(
        plan,
        vec![Action::Backward(BACKWARD_SPEED), Action::Sleep(BACKWARD_PULSE_US), Action::Standby]
    );
    let mut robot = RobotState { status: RobotStatus::GrabTennis, ball_cx: 320, grab_confirm_count: 4 };
    let plan = handle_detections(&mut robot, Some(sighting(320, Proximity::TooClose, 0)));
    let mut expected = vec![Action::Backward(BACKWARD_SPEED), Action::Sleep(BACKWARD_PULSE_US), Action::Standby];
    expected.extend(grab_sequence(true));
    assert_eq!(plan, expected);
    assert_eq!(robot.grab_confirm_count, 0);
}

#[test]
fn interrupted_confirmation_starts_over() {
    let mut robot = RobotState::default();
    handle_detections(&mut robot, Some(sighting(320, Proximity::Near, 0)));
    handle_detections(&mut robot, Some(sighting(320, Proximity::Near, 0)));
    assert_eq!(robot.grab_confirm_count, 2);
    handle_detections(&mut robot, None);
    assert_eq!(robot.grab_confirm_count, 0);
    handle_detections(&mut robot, Some(sighting(320, Proximity::Near, 0)));
    assert_eq!(robot.grab_confirm_count, 1);
    handle_detections(&mut robot, Some(sighting(320, Proximity::Far, 0)));
    assert_eq!(robot.grab_confirm_count, 0);
}

#[test]
fn frame_budget_is_respected() {
    let mut frames = FrameCounter::new();
    assert!(frames.begin_frame(false, Some(2)));
    frames.complete_frame();
    assert!(frames.begin_frame(false, Some(2)));
    assert!(!frames.begin_frame(false, Some(2)));
    assert_eq!(frames.frame_idx, 2);
    assert_eq!(frames.frame_count, 1);
    assert!(!frames.begin_frame(true, None));
    assert!(frames.begin_frame(false, None));
    assert_eq!(frames.frame_idx, 3);
    let mut none = FrameCounter::new();
    assert!(!none.begin_frame(false, Some(0)));
    assert_eq!(none.frame_idx, 0);
}

#[test]
fn stop_request_is_seen() {
    let flag = AtomicBool::new(false);
    assert!(!stop_requested(&flag));
    request_stop(&flag);
    assert!(stop_requested(&flag));
}

#[test]
fn full_counter_is_reset_by_frames_that_do_not_confirm() {
    let mut robot = RobotState { status: RobotStatus::GrabTennis, ball_cx: 1, grab_confirm_count: i32::MAX };
    handle_detections(&mut robot, None);
    assert_eq!(robot.grab_confirm_count, 0);
    let mut robot = RobotState { status: RobotStatus::GrabTennis, ball_cx: 1, grab_confirm_count: i32::MAX };
    let plan = handle_detections(&mut robot, Some(sighting(320, Proximity::Far, 0)));
    assert_eq!(plan, vec![Action::Forward(CHASE_SPEED)]);
    assert_eq!(robot.grab_confirm_count, 0);
    assert_eq!(robot.status, RobotStatus::ChaseTennis);
}
