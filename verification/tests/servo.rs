use embedded_rack::servo::{
    angle_to_pulse_us, command_pulse_us, plan_soft_pwm, PwmAction, PwmError, PwmPlan, ServoError,
    SoftPwm,
};

#[test]
fn pulse_endpoints_and_centre() {
    assert_eq!(angle_to_pulse_us(0, 1000, 2000), 1000);
    assert_eq!(angle_to_pulse_us(90, 1000, 2000), 1500);
    assert_eq!(angle_to_pulse_us(180, 1000, 2000), 2000);
    assert_eq!(angle_to_pulse_us(45, 1000, 2000), 1250);
    assert_eq!(angle_to_pulse_us(1, 1000, 2000), 1005);
    assert_eq!(angle_to_pulse_us(1, 500, 2500), 511);
}

#[test]
fn angles_above_180_are_clamped() {
    assert_eq!(angle_to_pulse_us(200, 1000, 2000), 2000);
    assert_eq!(angle_to_pulse_us(u16::MAX, 1000, 2000), 2000);
}

#[test]
fn equal_bounds_give_that_pulse() {
    assert_eq!(angle_to_pulse_us(77, 1500, 1500), 1500);
}

#[test]
fn commands_are_checked() {
    assert_eq!(command_pulse_us(181, 1000, 2000), Err(ServoError::AngleOutOfRange));
    assert_eq!(command_pulse_us(90, 2000, 2000), Err(ServoError::EmptyPulseRange));
    assert_eq!(command_pulse_us(90, 2500, 2000), Err(ServoError::EmptyPulseRange));
    assert_eq!(command_pulse_us(90, 0, u32::MAX), Err(ServoError::PulseRangeTooWide));
    assert_eq!(command_pulse_us(0, 0, u32::MAX), Ok(0));
    assert_eq!(command_pulse_us(90, 1000, 2000), Ok(1500));
}

#[test]
fn pwm_plan_at_50_hz() {
    assert_eq!(
        plan_soft_pwm(1500, 50, 3),
        Ok(PwmPlan { high_us: 1500, low_us: 18500, cycles: 150 })
    );
    assert_eq!(
        plan_soft_pwm(1500, 50, 0),
        Ok(PwmPlan { high_us: 1500, low_us: 18500, cycles: 0 })
    );
}

#[test]
fn pwm_plan_errors() {
    assert_eq!(plan_soft_pwm(1500, 0, 3), Err(PwmError::ZeroFrequency));
    assert_eq!(
        plan_soft_pwm(20000, 50, 3),
        Err(PwmError::PulseTooLong { pulse_us: 20000, period_us: 20000 })
    );
    assert_eq!(
        plan_soft_pwm(1, 2_000_000, 1),
        Err(PwmError::PulseTooLong { pulse_us: 1, period_us: 0 })
    );
}

#[test]
fn pwm_schedule() {
    let plan = PwmPlan { high_us: 1000, low_us: 19000, cycles: 2 };
    let mut pwm = SoftPwm::new(plan);
    let mut actions = Vec::new();
    while let Some(a) = pwm.next_action() {
        actions.push(a);
    }
    assert_eq!(
        actions,
        vec![
            PwmAction::SetHigh,
            PwmAction::SleepUs(1000),
            PwmAction::SetLow,
            PwmAction::SleepUs(19000),
            PwmAction::SetHigh,
            PwmAction::SleepUs(1000),
            PwmAction::SetLow,
            PwmAction::SleepUs(19000),
        ]
    );
    assert_eq!(pwm.next_action(), None);
}

#[test]
fn empty_schedule() {
    let mut pwm = SoftPwm::new(PwmPlan { high_us: 1000, low_us: 19000, cycles: 0 });
    assert_eq!(pwm.next_action(), None);
}

#[test]
fn pwm_holds_for_the_requested_time() {
    let plan = plan_soft_pwm(1500, 50, 3).unwrap();
    let mut pwm = SoftPwm::new(plan);
    let mut slept: u64 = 0;
    let mut highs = 0;
    while let Some(a) = pwm.next_action() {
        match a {
            PwmAction::SleepUs(us) => slept += us as u64,
            PwmAction::SetHigh => highs += 1,
            PwmAction::SetLow => {}
        }
    }
    assert_eq!(slept, 3_000_000);
    assert_eq!(highs, 150);
    // 1_000_000 / 7 = 142857 us periods fall short of a second by 1 us each.
    let plan = plan_soft_pwm(1000, 7, 2).unwrap();
    assert_eq!(plan.cycles * (plan.high_us + plan.low_us) as u64, 1_999_998);
}
