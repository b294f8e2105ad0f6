//! Hobby-servo control by software PWM: the pulse width for an angle, the
//! checks on the command line, and the schedule of pin changes and delays.
//!
//! Typical servos expect 50 Hz (a 20 ms period) and a pulse of about 1.0 ms
//! at 0 degrees to about 2.0 ms at 180 degrees, 1.5 ms being the centre.

use vstd::prelude::*;

verus! {

/// Largest angle, in degrees.
pub const MAX_ANGLE: u16 = 180;

/// Microseconds in a second.
pub const MICROS_PER_SECOND: u32 = 1_000_000;

/// The angle, capped at 180 degrees.
pub open spec fn clamped_angle(angle: int) -> int {
    if angle < 180 {
        angle
    } else {
        180
    }
}

/// The pulse width for `angle`: linear from `min_us` at 0 degrees to `max_us`
/// at 180 degrees, rounded down.
pub open spec fn pulse_width(angle: int, min_us: int, max_us: int) -> int {
    min_us + clamped_angle(angle) * (max_us - min_us) / 180
}

/// The 32-bit computation of the pulse width does not overflow.
pub open spec fn pulse_in_range(angle: int, min_us: int, max_us: int) -> bool {
    &&& min_us <= max_us
    &&& clamped_angle(angle) * (max_us - min_us) <= u32::MAX
}

/// Pulse width in microseconds for `angle` degrees (angles above 180 count as 180).
pub fn angle_to_pulse_us(angle: u16, min_us: u32, max_us: u32) -> (pulse: u32)
    requires
        pulse_in_range(angle as int, min_us as int, max_us as int),
    ensures
        pulse == pulse_width(angle as int, min_us as int, max_us as int),
        min_us <= pulse <= max_us,
{
    let a: u32 = if angle < MAX_ANGLE {
        angle as u32
    } else {
        180
    };
    let span = max_us - min_us;
    let scaled = a * span;
    proof {
        assert(scaled / 180 <= span) by (nonlinear_arith)
            requires
                scaled == a * span,
                a <= 180,
        ;
    }
    min_us + scaled / 180
}

/// Why a servo command is refused.
#[derive(Clone, Copy, Debug, PartialEq, Eq, Structural)]
pub enum ServoError {
    /// The angle is above 180 degrees.
    AngleOutOfRange,
    /// The minimum pulse is not below the maximum pulse.
    EmptyPulseRange,
    /// The pulse range is too wide for the 32-bit pulse computation.
    PulseRangeTooWide,
}

/// Checks a servo command and gives the pulse width for it: the angle must be
/// at most 180 degrees and the minimum pulse below the maximum.
pub fn command_pulse_us(angle: u16, min_us: u32, max_us: u32) -> (r: Result<u32, ServoError>)
    ensures
        angle > MAX_ANGLE ==> r == Err::<u32, ServoError>(ServoError::AngleOutOfRange),
        angle <= MAX_ANGLE && min_us >= max_us ==> r == Err::<u32, ServoError>(
            ServoError::EmptyPulseRange,
        ),
        angle <= MAX_ANGLE && min_us < max_us ==> (if pulse_in_range(
            angle as int,
            min_us as int,
            max_us as int,
        ) {
            r == Ok::<u32, ServoError>(pulse_width(angle as int, min_us as int, max_us as int) as u32)
        } else {
            r == Err::<u32, ServoError>(ServoError::PulseRangeTooWide)
        }),
{
    if angle > MAX_ANGLE {
        return Err(ServoError::AngleOutOfRange);
    }
    if min_us >= max_us {
        return Err(ServoError::EmptyPulseRange);
    }
    let a = angle as u64;
    let span = (max_us - min_us) as u64;
    assert(a * span <= 180 * 0xffff_ffff) by (nonlinear_arith)
        requires
            a <= 180,
            span <= 0xffff_ffff,
    ;
    if a * span > u32::MAX as u64 {
        return Err(ServoError::PulseRangeTooWide);
    }
    Ok(angle_to_pulse_us(angle, min_us, max_us))
}

/// Pulse width from 0 degrees up is non-decreasing, starts at `min_us`, ends at
/// `max_us`, and puts 90 degrees at the centre of the range (rounded down).
pub proof fn lemma_pulse_width_shape(a: int, b: int, min_us: int, max_us: int)
    requires
        0 <= a <= b,
        0 <= min_us <= max_us,
    ensures
        pulse_width(a, min_us, max_us) <= pulse_width(b, min_us, max_us),
        pulse_width(0, min_us, max_us) == min_us,
        pulse_width(180, min_us, max_us) == max_us,
        pulse_width(90, min_us, max_us) == min_us + (max_us - min_us) / 2,
        a >= 180 ==> pulse_width(a, min_us, max_us) == max_us,
{
    let span = max_us - min_us;
    let ca = clamped_angle(a);
    let cb = clamped_angle(b);
    assert(ca * span <= cb * span) by (nonlinear_arith)
        requires
            ca <= cb,
            span >= 0,
    ;
    vstd::arithmetic::div_mod::lemma_div_is_ordered(ca * span, cb * span, 180);
    assert(0 * span == 0);
    assert(180 * span / 180 == span) by (nonlinear_arith)
        requires
            span >= 0,
    ;
    assert(90 * span / 180 == span / 2) by (nonlinear_arith)
        requires
            span >= 0,
    ;
}

/// Up to 180 degrees the pulse is the linear interpolation rounded down:
/// `180 * (pulse - min_us) <= angle * (max_us - min_us) < 180 * (pulse - min_us) + 180`.
/// Hence, when the range spans at least 180 us, every further degree gives a
/// strictly longer pulse.
pub proof fn lemma_pulse_width_linear(angle: int, min_us: int, max_us: int)
    requires
        0 <= angle <= 180,
        min_us <= max_us,
    ensures
        180 * (pulse_width(angle, min_us, max_us) - min_us) <= angle * (max_us - min_us),
        angle * (max_us - min_us) < 180 * (pulse_width(angle, min_us, max_us) - min_us) + 180,
        angle < 180 && max_us - min_us >= 180 ==> pulse_width(angle, min_us, max_us)
            < pulse_width(angle + 1, min_us, max_us),
{
    let span = max_us - min_us;
    assert(clamped_angle(angle) == angle);
    let p = pulse_width(angle, min_us, max_us);
    assert(p - min_us == angle * span / 180);
    vstd::arithmetic::div_mod::lemma_fundamental_div_mod(angle * span, 180);
    assert(angle * span >= 0) by (nonlinear_arith)
        requires
            angle >= 0,
            span >= 0,
    ;
    if angle < 180 {
        assert(clamped_angle(angle + 1) == angle + 1);
        let q = pulse_width(angle + 1, min_us, max_us);
        assert(q - min_us == (angle + 1) * span / 180);
        vstd::arithmetic::div_mod::lemma_fundamental_div_mod((angle + 1) * span, 180);
        assert((angle + 1) * span == angle * span + span) by (nonlinear_arith);
    }
}

/// Why a PWM schedule cannot be made.
#[derive(Clone, Copy, Debug, PartialEq, Eq, Structural)]
pub enum PwmError {
    /// The frequency is zero.
    ZeroFrequency,
    /// The pulse does not fit in the period.
    PulseTooLong { pulse_us: u32, period_us: u32 },
}

/// A software PWM schedule: `cycles` periods, each high for `high_us` then
/// low for `low_us`.
#[derive(Clone, Copy, Debug, PartialEq, Eq, Structural)]
pub struct PwmPlan {
    pub high_us: u32,
    pub low_us: u32,
    pub cycles: u64,
}

/// The PWM period in microseconds for `hz`.
pub open spec fn period_us(hz: int) -> int {
    1_000_000int / hz
}

/// The number of cycles for `hold_s` seconds at `hz` fits in a `u64` (or is
/// never computed, because the request is refused first).
pub open spec fn pwm_in_range(pulse_us: int, hz: int, hold_s: int) -> bool {
    hz > 0 && pulse_us < period_us(hz) ==> hz * hold_s <= u64::MAX
}

/// Plans software PWM for `hold_s` seconds at `hz` with a pulse of `pulse_us`.
pub fn plan_soft_pwm(pulse_us: u32, hz: u32, hold_s: u64) -> (r: Result<PwmPlan, PwmError>)
    requires
        pwm_in_range(pulse_us as int, hz as int, hold_s as int),
    ensures
        hz == 0 ==> r == Err::<PwmPlan, PwmError>(PwmError::ZeroFrequency),
        hz > 0 && pulse_us >= period_us(hz as int) ==> r == Err::<PwmPlan, PwmError>(
            PwmError::PulseTooLong { pulse_us, period_us: period_us(hz as int) as u32 },
        ),
        hz > 0 && pulse_us < period_us(hz as int) ==> r == Ok::<PwmPlan, PwmError>(
            PwmPlan {
                high_us: pulse_us,
                low_us: (period_us(hz as int) - pulse_us) as u32,
                cycles: (hz * hold_s) as u64,
            },
        ),
{
    if hz == 0 {
        return Err(PwmError::ZeroFrequency);
    }
    let period: u32 = MICROS_PER_SECOND / hz;
    if pulse_us >= period {
        return Err(PwmError::PulseTooLong { pulse_us, period_us: period });
    }
    Ok(PwmPlan { high_us: pulse_us, low_us: period - pulse_us, cycles: hz as u64 * hold_s })
}

/// A single action of the PWM schedule.
#[derive(Clone, Copy, Debug, PartialEq, Eq, Structural)]
pub enum PwmAction {
    SetHigh,
    SetLow,
    SleepUs(u32),
}

/// The `k`-th action of a plan's schedule: each cycle is set high, sleep
/// `high_us`, set low, sleep `low_us`.
pub open spec fn scheduled_action(plan: PwmPlan, k: int) -> PwmAction {
    if k % 4 == 0 {
        PwmAction::SetHigh
    } else if k % 4 == 1 {
        PwmAction::SleepUs(plan.high_us)
    } else if k % 4 == 2 {
        PwmAction::SetLow
    } else {
        PwmAction::SleepUs(plan.low_us)
    }
}

/// Every cycle of the schedule is the same: set high, sleep the pulse, set
/// low, sleep the rest of the period; so the pin is high exactly during each
/// `high_us` sleep.
pub proof fn lemma_schedule_cycle(plan: PwmPlan, c: int)
    requires
        c >= 0,
    ensures
        scheduled_action(plan, 4 * c) == PwmAction::SetHigh,
        scheduled_action(plan, 4 * c + 1) == PwmAction::SleepUs(plan.high_us),
        scheduled_action(plan, 4 * c + 2) == PwmAction::SetLow,
        scheduled_action(plan, 4 * c + 3) == PwmAction::SleepUs(plan.low_us),
        scheduled_action(plan, 4 * c + 4) == scheduled_action(plan, 4 * c),
{
    assert((4 * c) % 4 == 0 && (4 * c + 1) % 4 == 1 && (4 * c + 2) % 4 == 2 && (4 * c + 3) % 4
        == 3 && (4 * c + 4) % 4 == 0);
}

/// Number of actions in a plan's schedule.
pub open spec fn schedule_len(plan: PwmPlan) -> int {
    4 * plan.cycles
}

/// Walks through a plan's schedule one action at a time.
pub struct SoftPwm {
    plan: PwmPlan,
    done_cycles: u64,
    phase: u8,
    emitted: Ghost<int>,
}

impl SoftPwm {
    /// The plan being run.
    pub closed spec fn plan(&self) -> PwmPlan {
        self.plan
    }

    /// How many actions were handed out so far.
    pub closed spec fn emitted(&self) -> int {
        self.emitted@
    }

    /// Internal consistency of the position in the schedule.
    pub closed spec fn wf(&self) -> bool {
        &&& self.phase < 4
        &&& self.done_cycles <= self.plan.cycles
        &&& self.done_cycles == self.plan.cycles ==> self.phase == 0
        &&& self.emitted@ == 4 * self.done_cycles + self.phase
    }

    /// Starts at the beginning of `plan`'s schedule.
    pub fn new(plan: PwmPlan) -> (s: SoftPwm)
        ensures
            s.wf(),
            s.plan() == plan,
            s.emitted() == 0,
    {
        SoftPwm { plan, done_cycles: 0, phase: 0, emitted: Ghost(0) }
    }

    /// The next action of the schedule, or `None` once all of it was handed out.
    pub fn next_action(&mut self) -> (a: Option<PwmAction>)
        requires
            old(self).wf(),
        ensures
            final(self).wf(),
            final(self).plan() == old(self).plan(),
            old(self).emitted() < schedule_len(old(self).plan()) ==> a == Some(
                scheduled_action(old(self).plan(), old(self).emitted()),
            ) && final(self).emitted() == old(self).emitted() + 1,
            old(self).emitted() >= schedule_len(old(self).plan()) ==> a is None
                && final(self).emitted() == old(self).emitted(),
    {
        if self.done_cycles >= self.plan.cycles {
            return None;
        }
        let ghost k = self.emitted@;
        proof {
            assert(k % 4 == self.phase as int) by (nonlinear_arith)
                requires
                    k == 4 * self.done_cycles + self.phase,
                    0 <= self.phase < 4,
                    self.done_cycles >= 0,
            ;
        }
        let action = if self.phase == 0 {
            PwmAction::SetHigh
        } else if self.phase == 1 {
            PwmAction::SleepUs(self.plan.high_us)
        } else if self.phase == 2 {
            PwmAction::SetLow
        } else {
            PwmAction::SleepUs(self.plan.low_us)
        };
        if self.phase == 3 {
            self.phase = 0;
            self.done_cycles = self.done_cycles + 1;
        } else {
            self.phase = self.phase + 1;
        }
        self.emitted = Ghost(k + 1);
        Some(action)
    }
}

/// Total time slept in the first `n` actions of a plan's schedule.
pub open spec fn sleep_time(plan: PwmPlan, n: nat) -> nat
    decreases n,
{
    if n == 0 {
        0
    } else {
        sleep_time(plan, (n - 1) as nat) + match scheduled_action(plan, n - 1) {
            PwmAction::SleepUs(us) => us as nat,
            _ => 0,
        }
    }
}

/// The schedule sleeps one full period, high part plus low part, per cycle.
pub proof fn lemma_schedule_time(plan: PwmPlan, cycles: nat)
    ensures
        sleep_time(plan, 4 * cycles) == cycles * (plan.high_us + plan.low_us),
    decreases cycles,
{
    if cycles > 0 {
        reveal_with_fuel(sleep_time, 5);
        let c = (cycles - 1) as nat;
        lemma_schedule_time(plan, c);
        let k = 4 * c;
        assert(k % 4 == 0 && (k + 1) % 4 == 1 && (k + 2) % 4 == 2 && (k + 3) % 4 == 3);
        assert(sleep_time(plan, (k + 4) as nat) == sleep_time(plan, k) + plan.high_us
            + plan.low_us);
        assert(c * (plan.high_us + plan.low_us) + plan.high_us + plan.low_us == cycles * (
        plan.high_us + plan.low_us)) by (nonlinear_arith)
            requires
                cycles == c + 1,
        ;
        assert(4 * cycles == k + 4);
    } else {
        assert(0 * (plan.high_us + plan.low_us) == 0);
    }
}

/// Software PWM holds the signal for about `hold_s` seconds: its schedule
/// sleeps `hz * hold_s` whole periods of `1_000_000 / hz` microseconds, each
/// split into the pulse and the rest of the period, which is at most `hold_s`
/// seconds and falls short of it by at most `hz - 1` microseconds per second.
pub proof fn lemma_pwm_duration(pulse_us: u32, hz: u32, hold_s: u64)
    requires
        hz > 0,
        pulse_us < period_us(hz as int),
        hz * hold_s <= u64::MAX,
    ensures
        ({
            let plan = PwmPlan {
                high_us: pulse_us,
                low_us: (period_us(hz as int) - pulse_us) as u32,
                cycles: (hz * hold_s) as u64,
            };
            &&& plan.high_us + plan.low_us == period_us(hz as int)
            &&& sleep_time(plan, schedule_len(plan) as nat) == hz * hold_s * period_us(hz as int)
            &&& sleep_time(plan, schedule_len(plan) as nat) <= hold_s * 1_000_000
            &&& hold_s * 1_000_000 - sleep_time(plan, schedule_len(plan) as nat) <= (hz - 1)
                * hold_s
        }),
{
    let plan = PwmPlan {
        high_us: pulse_us,
        low_us: (period_us(hz as int) - pulse_us) as u32,
        cycles: (hz * hold_s) as u64,
    };
    lemma_schedule_time(plan, plan.cycles as nat);
    let p = period_us(hz as int);
    vstd::arithmetic::div_mod::lemma_fundamental_div_mod(1_000_000, hz as int);
    let m = 1_000_000int % (hz as int);
    let h = hold_s as int;
    assert(h * 1_000_000 == h * (hz * p) + h * m) by (nonlinear_arith)
        requires
            1_000_000 == hz * p + m,
    ;
    assert(hz * h * p == h * (hz * p)) by (nonlinear_arith);
    assert(0 <= h * m <= h * (hz - 1)) by (nonlinear_arith)
        requires
            0 <= m <= hz - 1,
            h >= 0,
    ;
    assert((hz - 1) * h == h * (hz - 1)) by (nonlinear_arith);
}

} // verus!
