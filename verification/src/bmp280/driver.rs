//! The BMP280 bring-up and read protocol as a state machine.
//!
//! The machine decides which register to read or write next and what a reply
//! means; the caller performs each request on the I2C bus (or sleeps) and hands
//! back the reply.

use vstd::prelude::*;

use crate::bmp280::calibration::{calibration_of, Calibration, CALIBRATION_LEN};
use crate::bmp280::measurement::{
    measurement_of, Measurement, MeasurementError, MEASUREMENT_LEN,
};

verus! {

/// Value of the chip-id register of a BMP280.
pub const BMP280_CHIP_ID: u8 = 0x58;

/// Chip-id register.
pub const REG_CHIP_ID: u8 = 0xD0;

/// Soft-reset register.
pub const REG_RESET: u8 = 0xE0;

/// Status register (bit 3 `measuring`, bit 0 `im_update`).
pub const REG_STATUS: u8 = 0xF3;

/// Measurement control register (oversampling and power mode).
pub const REG_CTRL_MEAS: u8 = 0xF4;

/// Configuration register (standby time and filter).
pub const REG_CONFIG: u8 = 0xF5;

/// First register of the measurement burst.
pub const REG_PRESS_MSB: u8 = 0xF7;

/// First calibration register.
pub const REG_CALIB_START: u8 = 0x88;

/// Value written to `REG_RESET` to reset the chip.
pub const RESET_COMMAND: u8 = 0xB6;

/// Standby 1000 ms, filter coefficient 16 (`0b100_101_00`).
pub const CONFIG_VALUE: u8 = 0x94;

/// Temperature oversampling x16, pressure oversampling x16, normal mode
/// (`0b101_101_11`).
pub const CTRL_MEAS_VALUE: u8 = 0xB7;

/// Status bits that mean the chip is still busy.
pub const STATUS_BUSY_MASK: u8 = 0b1001;

/// How many busy status reads are tolerated while waiting.
pub const MAX_STATUS_POLLS: u32 = 20;

/// Delay between two status reads, in milliseconds.
pub const STATUS_POLL_DELAY_MS: u64 = 5;

/// Delay after the soft reset, in milliseconds.
pub const RESET_DELAY_MS: u64 = 10;

/// A bus operation or delay that the machine asks its caller to perform.
#[derive(Clone, Copy, Debug, PartialEq, Eq, Structural)]
pub enum Request {
    /// Write `register`, then read `len` bytes.
    Read { register: u8, len: usize },
    /// Write `value` to `register`.
    Write { register: u8, value: u8 },
    /// Sleep for `ms` milliseconds.
    Sleep { ms: u64 },
}

/// The outcome of a request, handed back to the machine.
#[derive(Debug)]
pub enum Reply {
    /// The bytes that a `Read` returned.
    Data(Vec<u8>),
    /// A `Write` or a `Sleep` completed.
    Done,
    /// The bus transfer failed.
    BusError,
}

/// Why bring-up or a read failed.
#[derive(Clone, Copy, Debug, PartialEq, Eq, Structural)]
pub enum Bmp280Error {
    /// Reading `register` failed on the bus.
    ReadFailed { register: u8 },
    /// Writing `register` failed on the bus.
    WriteFailed { register: u8 },
    /// The chip-id register did not hold `BMP280_CHIP_ID`.
    UnexpectedChipId { id: u8 },
    /// The status stayed busy for `MAX_STATUS_POLLS` reads.
    StayedBusy,
    /// The calibration makes the pressure formula divide by zero.
    InvalidCalibration,
    /// An intermediate value of the compensation would overflow.
    OutOfRange,
    /// The reply does not answer the pending request.
    UnexpectedReply,
}

/// What the machine says after a step.
#[derive(Clone, Copy, Debug, PartialEq, Eq, Structural)]
pub enum Step {
    /// Perform this request and hand back its reply.
    Request(Request),
    /// Bring-up completed; the sensor is ready for reads.
    Initialized,
    /// A read completed.
    Measured(Measurement),
    /// Bring-up or the read failed.
    Failed(Bmp280Error),
}

/// What a status wait leads to once the chip is ready.
#[derive(Clone, Copy, Debug, PartialEq, Eq, Structural)]
pub enum AfterReady {
    /// Bring-up completes.
    Initialize,
    /// The measurement burst is read.
    Measure,
}

/// Where the protocol stands: the request whose reply is awaited, and what is
/// known so far.
#[derive(Clone, Copy, Debug, PartialEq, Eq, Structural)]
pub enum Phase {
    /// Awaiting the chip id.
    ChipId,
    /// Awaiting the soft-reset write.
    Reset,
    /// Awaiting the delay after reset.
    ResetDelay,
    /// Awaiting the calibration block.
    CalibrationData,
    /// Awaiting the write of the configuration register.
    Config { cal: Calibration },
    /// Awaiting the write of the measurement control register.
    CtrlMeas { cal: Calibration },
    /// Awaiting a status byte; `polls` busy statuses were seen so far.
    Status { cal: Calibration, polls: u32, then: AfterReady },
    /// Awaiting the delay after the `polls`-th busy status.
    PollDelay { cal: Calibration, polls: u32, then: AfterReady },
    /// Awaiting the measurement burst.
    Measurement { cal: Calibration },
    /// Initialized and idle.
    Ready { cal: Calibration },
    /// Bring-up failed.
    Failed,
}

/// The request to read the status register.
pub open spec fn status_request() -> Request {
    Request::Read { register: REG_STATUS, len: 1 }
}

/// A phase that the machine can be in: poll counts stay within the budget.
pub open spec fn phase_wf(phase: Phase) -> bool {
    match phase {
        Phase::Status { polls, .. } => polls < MAX_STATUS_POLLS,
        Phase::PollDelay { polls, .. } => 1 <= polls <= MAX_STATUS_POLLS,
        _ => true,
    }
}

/// The calibration that a phase holds, if any.
pub open spec fn calibration_in(phase: Phase) -> Option<Calibration> {
    match phase {
        Phase::Config { cal } => Some(cal),
        Phase::CtrlMeas { cal } => Some(cal),
        Phase::Status { cal, .. } => Some(cal),
        Phase::PollDelay { cal, .. } => Some(cal),
        Phase::Measurement { cal } => Some(cal),
        Phase::Ready { cal } => Some(cal),
        _ => None,
    }
}

/// The phase after a failure: a failed read leaves the sensor ready, a failed
/// bring-up leaves it failed.
pub open spec fn after_failure(phase: Phase) -> Phase {
    match phase {
        Phase::Status { cal, then: AfterReady::Measure, .. } => Phase::Ready { cal },
        Phase::PollDelay { cal, then: AfterReady::Measure, .. } => Phase::Ready { cal },
        Phase::Measurement { cal } => Phase::Ready { cal },
        Phase::Ready { cal } => Phase::Ready { cal },
        _ => Phase::Failed,
    }
}

/// The reply is the data of a read of `len` bytes.
pub open spec fn is_data(reply: Reply, len: nat) -> bool {
    reply matches Reply::Data(d) && d@.len() == len
}

/// The bytes of a data reply.
pub open spec fn data_of(reply: Reply) -> Seq<u8> {
    match reply {
        Reply::Data(d) => d@,
        _ => Seq::empty(),
    }
}

/// A reply that does not answer the pending request changes nothing.
pub open spec fn unexpected(phase: Phase) -> (Phase, Step) {
    (phase, Step::Failed(Bmp280Error::UnexpectedReply))
}

/// Reply to a pending write of `register`: on success go to `next` and issue
/// `request`.
pub open spec fn after_write(
    phase: Phase,
    reply: Reply,
    register: u8,
    next: Phase,
    request: Request,
) -> (Phase, Step) {
    match reply {
        Reply::Done => (next, Step::Request(request)),
        Reply::BusError => (after_failure(phase), Step::Failed(Bmp280Error::WriteFailed { register })),
        _ => unexpected(phase),
    }
}

/// What a measurement burst gives.
pub open spec fn measured_step(raw: Seq<u8>, cal: Calibration) -> Step {
    match measurement_of(raw, cal) {
        Ok(m) => Step::Measured(m),
        Err(MeasurementError::InvalidCalibration) => Step::Failed(Bmp280Error::InvalidCalibration),
        Err(MeasurementError::OutOfRange) => Step::Failed(Bmp280Error::OutOfRange),
    }
}

/// The protocol: the phase and step that a reply leads to.
pub open spec fn transition(phase: Phase, reply: Reply) -> (Phase, Step) {
    match phase {
        Phase::ChipId => if is_data(reply, 1) {
            let id = data_of(reply)[0];
            if id == BMP280_CHIP_ID {
                (
                    Phase::Reset,
                    Step::Request(Request::Write { register: REG_RESET, value: RESET_COMMAND }),
                )
            } else {
                (Phase::Failed, Step::Failed(Bmp280Error::UnexpectedChipId { id }))
            }
        } else if reply is BusError {
            (Phase::Failed, Step::Failed(Bmp280Error::ReadFailed { register: REG_CHIP_ID }))
        } else {
            unexpected(phase)
        },
        Phase::Reset => after_write(
            phase,
            reply,
            REG_RESET,
            Phase::ResetDelay,
            Request::Sleep { ms: RESET_DELAY_MS },
        ),
        Phase::ResetDelay => if reply is Done {
            (
                Phase::CalibrationData,
                Step::Request(Request::Read { register: REG_CALIB_START, len: CALIBRATION_LEN }),
            )
        } else {
            unexpected(phase)
        },
        Phase::CalibrationData => if is_data(reply, CALIBRATION_LEN as nat) {
            (
                Phase::Config { cal: calibration_of(data_of(reply)) },
                Step::Request(Request::Write { register: REG_CONFIG, value: CONFIG_VALUE }),
            )
        } else if reply is BusError {
            (Phase::Failed, Step::Failed(Bmp280Error::ReadFailed { register: REG_CALIB_START }))
        } else {
            unexpected(phase)
        },
        Phase::Config { cal } => after_write(
            phase,
            reply,
            REG_CONFIG,
            Phase::CtrlMeas { cal },
            Request::Write { register: REG_CTRL_MEAS, value: CTRL_MEAS_VALUE },
        ),
        Phase::CtrlMeas { cal } => after_write(
            phase,
            reply,
            REG_CTRL_MEAS,
            Phase::Status { cal, polls: 0, then: AfterReady::Initialize },
            status_request(),
        ),
        Phase::Status { cal, polls, then } => if is_data(reply, 1) {
            if data_of(reply)[0] & STATUS_BUSY_MASK == 0 {
                match then {
                    AfterReady::Initialize => (Phase::Ready { cal }, Step::Initialized),
                    AfterReady::Measure => (
                        Phase::Measurement { cal },
                        Step::Request(
                            Request::Read { register: REG_PRESS_MSB, len: MEASUREMENT_LEN },
                        ),
                    ),
                }
            } else {
                (
                    Phase::PollDelay { cal, polls: (polls + 1) as u32, then },
                    Step::Request(Request::Sleep { ms: STATUS_POLL_DELAY_MS }),
                )
            }
        } else if reply is BusError {
            (after_failure(phase), Step::Failed(Bmp280Error::ReadFailed { register: REG_STATUS }))
        } else {
            unexpected(phase)
        },
        Phase::PollDelay { cal, polls, then } => if reply is Done {
            if polls >= MAX_STATUS_POLLS {
                (after_failure(phase), Step::Failed(Bmp280Error::StayedBusy))
            } else {
                (Phase::Status { cal, polls, then }, Step::Request(status_request()))
            }
        } else {
            unexpected(phase)
        },
        Phase::Measurement { cal } => if is_data(reply, MEASUREMENT_LEN as nat) {
            (Phase::Ready { cal }, measured_step(data_of(reply), cal))
        } else if reply is BusError {
            (
                Phase::Ready { cal },
                Step::Failed(Bmp280Error::ReadFailed { register: REG_PRESS_MSB }),
            )
        } else {
            unexpected(phase)
        },
        Phase::Ready { .. } => unexpected(phase),
        Phase::Failed => unexpected(phase),
    }
}

/// A BMP280 driven through its bring-up and read protocol.
pub struct Bmp280 {
    phase: Phase,
}

impl View for Bmp280 {
    type V = Phase;

    closed spec fn view(&self) -> Phase {
        self.phase
    }
}

impl Bmp280 {
    /// The machine's phases stay within the poll budget.
    pub closed spec fn wf(&self) -> bool {
        phase_wf(self.phase)
    }

    /// Starts bring-up: the first request reads the chip id.
    pub fn new() -> (r: (Bmp280, Request))
        ensures
            r.0@ == Phase::ChipId,
            r.0.wf(),
            r.1 == (Request::Read { register: REG_CHIP_ID, len: 1 }),
    {
        (Bmp280 { phase: Phase::ChipId }, Request::Read { register: REG_CHIP_ID, len: 1 })
    }

    /// The sensor finished bring-up and no request is pending.
    pub fn is_ready(&self) -> (b: bool)
        ensures
            b == (self@ is Ready),
    {
        match self.phase {
            Phase::Ready { .. } => true,
            _ => false,
        }
    }

    /// The calibration read during bring-up, once it has been read.
    pub fn calibration(&self) -> (c: Option<Calibration>)
        ensures
            c == calibration_in(self@),
    {
        match self.phase {
            Phase::Config { cal } => Some(cal),
            Phase::CtrlMeas { cal } => Some(cal),
            Phase::Status { cal, .. } => Some(cal),
            Phase::PollDelay { cal, .. } => Some(cal),
            Phase::Measurement { cal } => Some(cal),
            Phase::Ready { cal } => Some(cal),
            _ => None,
        }
    }

    /// Starts a read of a ready sensor: it waits for the status to clear, then
    /// reads the measurement burst.
    pub fn read(&mut self) -> (req: Request)
        requires
            old(self)@ is Ready,
        ensures
            final(self)@ == (Phase::Status {
                cal: calibration_in(old(self)@)->0,
                polls: 0,
                then: AfterReady::Measure,
            }),
            final(self).wf(),
            req == status_request(),
    {
        match self.phase {
            Phase::Ready { cal } => {
                self.phase = Phase::Status { cal, polls: 0, then: AfterReady::Measure };
            },
            _ => {},
        }
        Request::Read { register: REG_STATUS, len: 1 }
    }

    /// Hands the reply of the pending request to the machine.
    pub fn advance(&mut self, reply: Reply) -> (step: Step)
        requires
            old(self).wf(),
        ensures
            (final(self)@, step) == transition(old(self)@, reply),
            final(self).wf(),
    {
        let phase = self.phase;
        let (next, step) = match phase {
            Phase::ChipId => match &reply {
                Reply::Data(d) if d.len() == 1 => {
                    let id = d[0];
                    if id == BMP280_CHIP_ID {
                        (
                            Phase::Reset,
                            Step::Request(
                                Request::Write { register: REG_RESET, value: RESET_COMMAND },
                            ),
                        )
                    } else {
                        (Phase::Failed, Step::Failed(Bmp280Error::UnexpectedChipId { id }))
                    }
                },
                Reply::BusError => (
                    Phase::Failed,
                    Step::Failed(Bmp280Error::ReadFailed { register: REG_CHIP_ID }),
                ),
                _ => (phase, Step::Failed(Bmp280Error::UnexpectedReply)),
            },
            Phase::Reset => Self::after_write(
                phase,
                &reply,
                REG_RESET,
                Phase::ResetDelay,
                Request::Sleep { ms: RESET_DELAY_MS },
            ),
            Phase::ResetDelay => match &reply {
                Reply::Done => (
                    Phase::CalibrationData,
                    Step::Request(
                        Request::Read { register: REG_CALIB_START, len: CALIBRATION_LEN },
                    ),
                ),
                _ => (phase, Step::Failed(Bmp280Error::UnexpectedReply)),
            },
            Phase::CalibrationData => match &reply {
                Reply::Data(d) if d.len() == CALIBRATION_LEN => {
                    let cal = Calibration::from_bytes(d.as_slice());
                    (
                        Phase::Config { cal },
                        Step::Request(Request::Write { register: REG_CONFIG, value: CONFIG_VALUE }),
                    )
                },
                Reply::BusError => (
                    Phase::Failed,
                    Step::Failed(Bmp280Error::ReadFailed { register: REG_CALIB_START }),
                ),
                _ => (phase, Step::Failed(Bmp280Error::UnexpectedReply)),
            },
            Phase::Config { cal } => Self::after_write(
                phase,
                &reply,
                REG_CONFIG,
                Phase::CtrlMeas { cal },
                Request::Write { register: REG_CTRL_MEAS, value: CTRL_MEAS_VALUE },
            ),
            Phase::CtrlMeas { cal } => Self::after_write(
                phase,
                &reply,
                REG_CTRL_MEAS,
                Phase::Status { cal, polls: 0, then: AfterReady::Initialize },
                Request::Read { register: REG_STATUS, len: 1 },
            ),
            Phase::Status { cal, polls, then } => match &reply {
                Reply::Data(d) if d.len() == 1 => {
                    if d[0] & STATUS_BUSY_MASK == 0 {
                        match then {
                            AfterReady::Initialize => (Phase::Ready { cal }, Step::Initialized),
                            AfterReady::Measure => (
                                Phase::Measurement { cal },
                                Step::Request(
                                    Request::Read {
                                        register: REG_PRESS_MSB,
                                        len: MEASUREMENT_LEN,
                                    },
                                ),
                            ),
                        }
                    } else {
                        (
                            Phase::PollDelay { cal, polls: polls + 1, then },
                            Step::Request(Request::Sleep { ms: STATUS_POLL_DELAY_MS }),
                        )
                    }
                },
                Reply::BusError => (
                    Self::after_failure(phase),
                    Step::Failed(Bmp280Error::ReadFailed { register: REG_STATUS }),
                ),
                _ => (phase, Step::Failed(Bmp280Error::UnexpectedReply)),
            },
            Phase::PollDelay { cal, polls, then } => match &reply {
                Reply::Done => {
                    if polls >= MAX_STATUS_POLLS {
                        (Self::after_failure(phase), Step::Failed(Bmp280Error::StayedBusy))
                    } else {
                        (
                            Phase::Status { cal, polls, then },
                            Step::Request(Request::Read { register: REG_STATUS, len: 1 }),
                        )
                    }
                },
                _ => (phase, Step::Failed(Bmp280Error::UnexpectedReply)),
            },
            Phase::Measurement { cal } => match &reply {
                Reply::Data(d) if d.len() == MEASUREMENT_LEN => {
                    let step = match Measurement::from_raw(d.as_slice(), &cal) {
                        Ok(m) => Step::Measured(m),
                        Err(MeasurementError::InvalidCalibration) => Step::Failed(
                            Bmp280Error::InvalidCalibration,
                        ),
                        Err(MeasurementError::OutOfRange) => Step::Failed(
                            Bmp280Error::OutOfRange,
                        ),
                    };
                    (Phase::Ready { cal }, step)
                },
                Reply::BusError => (
                    Phase::Ready { cal },
                    Step::Failed(Bmp280Error::ReadFailed { register: REG_PRESS_MSB }),
                ),
                _ => (phase, Step::Failed(Bmp280Error::UnexpectedReply)),
            },
            Phase::Ready { .. } => (phase, Step::Failed(Bmp280Error::UnexpectedReply)),
            Phase::Failed => (phase, Step::Failed(Bmp280Error::UnexpectedReply)),
        };
        self.phase = next;
        step
    }

    fn after_failure(phase: Phase) -> (p: Phase)
        ensures
            p == after_failure(phase),
    {
        match phase {
            Phase::Status { cal, then: AfterReady::Measure, .. } => Phase::Ready { cal },
            Phase::PollDelay { cal, then: AfterReady::Measure, .. } => Phase::Ready { cal },
            Phase::Measurement { cal } => Phase::Ready { cal },
            Phase::Ready { cal } => Phase::Ready { cal },
            _ => Phase::Failed,
        }
    }

    fn after_write(phase: Phase, reply: &Reply, register: u8, next: Phase, request: Request) -> (r: (
        Phase,
        Step,
    ))
        ensures
            r == after_write(phase, *reply, register, next, request),
    {
        match reply {
            Reply::Done => (next, Step::Request(request)),
            Reply::BusError => (
                Self::after_failure(phase),
                Step::Failed(Bmp280Error::WriteFailed { register }),
            ),
            _ => (phase, Step::Failed(Bmp280Error::UnexpectedReply)),
        }
    }
}

/// The phase reached and the steps said when `replies` are handed, in order,
/// to a machine in `phase`.
pub open spec fn run(phase: Phase, replies: Seq<Reply>) -> (Phase, Seq<Step>)
    decreases replies.len(),
{
    if replies.len() == 0 {
        (phase, Seq::empty())
    } else {
        let (next, step) = transition(phase, replies[0]);
        let (last, steps) = run(next, replies.drop_first());
        (last, seq![step] + steps)
    }
}

/// A busy status byte followed by the completion of the delay, for each
/// status in `statuses`.
pub open spec fn busy_wait(statuses: Seq<Reply>) -> Seq<Reply>
    decreases statuses.len(),
{
    if statuses.len() == 0 {
        Seq::empty()
    } else {
        seq![statuses[0], Reply::Done] + busy_wait(statuses.drop_first())
    }
}

/// Each reply is a one-byte status with a busy bit set.
pub open spec fn all_busy(statuses: Seq<Reply>) -> bool {
    forall|i: int|
        0 <= i < statuses.len() ==> is_data(#[trigger] statuses[i], 1) && data_of(statuses[i])[0]
            & STATUS_BUSY_MASK != 0
}

proof fn lemma_run_two(phase: Phase, a: Reply, b: Reply, rest: Seq<Reply>)
    ensures
        run(phase, seq![a, b] + rest) == ({
            let (p1, s1) = transition(phase, a);
            let (p2, s2) = transition(p1, b);
            let (p3, ss) = run(p2, rest);
            (p3, seq![s1, s2] + ss)
        }),
{
    reveal_with_fuel(run, 3);
    let all = seq![a, b] + rest;
    assert(all[0] == a);
    assert(all.drop_first() =~= seq![b] + rest);
    let tail = seq![b] + rest;
    assert(tail[0] == b);
    assert(tail.drop_first() =~= rest);
    let (p1, s1) = transition(phase, a);
    let (p2, s2) = transition(p1, b);
    let (p3, ss) = run(p2, rest);
    assert(seq![s1] + (seq![s2] + ss) =~= seq![s1, s2] + ss);
}

/// Waiting for the status gives up after exactly `MAX_STATUS_POLLS` busy
/// statuses: with `polls` busy statuses already seen, `n` more (each followed
/// by its delay) leave the machine polling with `polls + n` seen, or, when
/// that reaches the budget, end the wait with `StayedBusy`.
pub proof fn lemma_busy_wait(cal: Calibration, polls: u32, then: AfterReady, statuses: Seq<Reply>)
    requires
        polls + statuses.len() <= MAX_STATUS_POLLS,
        statuses.len() >= 1,
        all_busy(statuses),
    ensures
        ({
            let phase = Phase::Status { cal, polls, then };
            let (last, steps) = run(phase, busy_wait(statuses));
            &&& steps.len() == 2 * statuses.len()
            &&& if polls + statuses.len() == MAX_STATUS_POLLS {
                &&& last == after_failure(phase)
                &&& steps.last() == Step::Failed(Bmp280Error::StayedBusy)
            } else {
                &&& last == (Phase::Status { cal, polls: (polls + statuses.len()) as u32, then })
                &&& steps.last() == Step::Request(status_request())
            }
        }),
    decreases statuses.len(),
{
    let phase = Phase::Status { cal, polls, then };
    let rest = statuses.drop_first();
    assert(busy_wait(statuses) == seq![statuses[0], Reply::Done] + busy_wait(rest));
    lemma_run_two(phase, statuses[0], Reply::Done, busy_wait(rest));
    assert(is_data(statuses[0], 1) && data_of(statuses[0])[0] & STATUS_BUSY_MASK != 0);
    let p1 = Phase::PollDelay { cal, polls: (polls + 1) as u32, then };
    assert(transition(phase, statuses[0]).0 == p1);
    if statuses.len() == 1 {
        assert(rest.len() == 0);
        assert(busy_wait(rest) == Seq::<Reply>::empty());
        assert(after_failure(p1) == after_failure(phase));
    } else {
        let p2 = Phase::Status { cal, polls: (polls + 1) as u32, then };
        assert(transition(p1, Reply::Done).0 == p2);
        assert(all_busy(rest)) by {
            assert forall|i: int| 0 <= i < rest.len() implies is_data(#[trigger] rest[i], 1)
                && data_of(rest[i])[0] & STATUS_BUSY_MASK != 0 by {
                assert(rest[i] == statuses[i + 1]);
            }
        }
        lemma_busy_wait(cal, (polls + 1) as u32, then, rest);
        let (p3, ss) = run(p2, busy_wait(rest));
        let (_, s1) = transition(phase, statuses[0]);
        let (_, s2) = transition(p1, Reply::Done);
        assert((seq![s1, s2] + ss).last() == ss.last());
    }
}

/// Bring-up with a matching chip id, a 24-byte calibration block and a ready
/// status issues, in order, the soft reset, the delay after it, the read of the
/// calibration block, the configuration and measurement-control writes and a
/// status read, then reports the sensor initialized with that calibration.
pub proof fn lemma_bringup(id: Reply, calibration: Reply, status: Reply)
    requires
        is_data(id, 1),
        data_of(id)[0] == BMP280_CHIP_ID,
        is_data(calibration, CALIBRATION_LEN as nat),
        is_data(status, 1),
        data_of(status)[0] & STATUS_BUSY_MASK == 0,
    ensures
        run(Phase::ChipId, seq![id, Reply::Done, Reply::Done, calibration, Reply::Done, Reply::Done, status])
            == (
            Phase::Ready { cal: calibration_of(data_of(calibration)) },
            seq![
                Step::Request(Request::Write { register: REG_RESET, value: RESET_COMMAND }),
                Step::Request(Request::Sleep { ms: RESET_DELAY_MS }),
                Step::Request(Request::Read { register: REG_CALIB_START, len: CALIBRATION_LEN }),
                Step::Request(Request::Write { register: REG_CONFIG, value: CONFIG_VALUE }),
                Step::Request(Request::Write { register: REG_CTRL_MEAS, value: CTRL_MEAS_VALUE }),
                Step::Request(status_request()),
                Step::Initialized,
            ],
        ),
{
    let cal = calibration_of(data_of(calibration));
    let d = Reply::Done;
    let tail3 = seq![status];
    let tail5 = seq![d, d] + tail3;
    let tail7 = seq![d, calibration] + tail5;
    let all = seq![id, d] + tail7;
    assert(all =~= seq![id, Reply::Done, Reply::Done, calibration, Reply::Done, Reply::Done, status]);
    lemma_run_two(Phase::ChipId, id, d, tail7);
    lemma_run_two(Phase::ResetDelay, d, calibration, tail5);
    lemma_run_two(Phase::Config { cal }, d, d, tail3);
    let ready = Phase::Status { cal, polls: 0, then: AfterReady::Initialize };
    assert(tail3[0] == status);
    assert(tail3.drop_first() =~= Seq::<Reply>::empty());
    reveal_with_fuel(run, 2);
    assert(run(ready, tail3) == (Phase::Ready { cal }, seq![Step::Initialized] + Seq::<Step>::empty()));
    assert(seq![Step::Initialized] + Seq::<Step>::empty() =~= seq![Step::Initialized]);
    let s1 = Step::Request(Request::Write { register: REG_RESET, value: RESET_COMMAND });
    let s2 = Step::Request(Request::Sleep { ms: RESET_DELAY_MS });
    let s3 = Step::Request(Request::Read { register: REG_CALIB_START, len: CALIBRATION_LEN });
    let s4 = Step::Request(Request::Write { register: REG_CONFIG, value: CONFIG_VALUE });
    let s5 = Step::Request(Request::Write { register: REG_CTRL_MEAS, value: CTRL_MEAS_VALUE });
    let s6 = Step::Request(status_request());
    assert(seq![s1, s2] + (seq![s3, s4] + (seq![s5, s6] + seq![Step::Initialized])) =~= seq![
        s1,
        s2,
        s3,
        s4,
        s5,
        s6,
        Step::Initialized,
    ]);
}

/// The phase belongs to a read of an initialized sensor.
pub open spec fn in_read(phase: Phase) -> bool {
    match phase {
        Phase::Status { then: AfterReady::Measure, .. } => true,
        Phase::PollDelay { then: AfterReady::Measure, .. } => true,
        Phase::Measurement { .. } => true,
        Phase::Ready { .. } => true,
        _ => false,
    }
}

/// The calibration read during bring-up never changes: a phase that holds a
/// calibration leads only to phases that hold the same one, or to `Failed`;
/// and a read, whatever its replies, never leaves the sensor failed, so that
/// a failed read can be followed by another.
pub proof fn lemma_calibration_kept(phase: Phase, reply: Reply)
    requires
        calibration_in(phase) is Some,
    ensures
        ({
            let next = transition(phase, reply).0;
            &&& next == Phase::Failed || calibration_in(next) == calibration_in(phase)
            &&& in_read(phase) ==> in_read(next)
        }),
{
}

/// A read whose first status byte is ready asks for the measurement burst,
/// then reports what that burst compensates to and leaves the sensor ready
/// with its calibration.
pub proof fn lemma_read(cal: Calibration, status: Reply, raw: Reply)
    requires
        is_data(status, 1),
        data_of(status)[0] & STATUS_BUSY_MASK == 0,
        is_data(raw, MEASUREMENT_LEN as nat),
    ensures
        run(Phase::Status { cal, polls: 0, then: AfterReady::Measure }, seq![status, raw]) == (
            Phase::Ready { cal },
            seq![
                Step::Request(Request::Read { register: REG_PRESS_MSB, len: MEASUREMENT_LEN }),
                measured_step(data_of(raw), cal),
            ],
        ),
{
    lemma_run_two(
        Phase::Status { cal, polls: 0, then: AfterReady::Measure },
        status,
        raw,
        Seq::empty(),
    );
    assert(seq![status, raw] + Seq::<Reply>::empty() =~= seq![status, raw]);
    let s1 = Step::Request(Request::Read { register: REG_PRESS_MSB, len: MEASUREMENT_LEN });
    let s2 = measured_step(data_of(raw), cal);
    assert(seq![s1, s2] + Seq::<Step>::empty() =~= seq![s1, s2]);
}

/// Handing over `a` then `b` is handing over `a + b`.
pub proof fn lemma_run_append(phase: Phase, a: Seq<Reply>, b: Seq<Reply>)
    ensures
        run(phase, a + b) == ({
            let (mid, first) = run(phase, a);
            let (last, second) = run(mid, b);
            (last, first + second)
        }),
    decreases a.len(),
{
    if a.len() == 0 {
        assert(a + b =~= b);
        assert(Seq::<Step>::empty() + run(phase, b).1 =~= run(phase, b).1);
    } else {
        let (next, step) = transition(phase, a[0]);
        assert((a + b)[0] == a[0]);
        assert((a + b).drop_first() =~= a.drop_first() + b);
        lemma_run_append(next, a.drop_first(), b);
        let (mid, rest_a) = run(next, a.drop_first());
        let (last, second) = run(mid, b);
        assert(seq![step] + (rest_a + second) =~= (seq![step] + rest_a) + second);
    }
}

/// The phase and step that a ready status gives at the end of a wait.
pub open spec fn ready_outcome(cal: Calibration, then: AfterReady) -> (Phase, Step) {
    match then {
        AfterReady::Initialize => (Phase::Ready { cal }, Step::Initialized),
        AfterReady::Measure => (
            Phase::Measurement { cal },
            Step::Request(Request::Read { register: REG_PRESS_MSB, len: MEASUREMENT_LEN }),
        ),
    }
}

/// A status wait ends as soon as the status is ready: after any number of
/// busy statuses below the budget (each followed by its delay), a ready status
/// completes bring-up, or, in a read, asks for the measurement burst.
pub proof fn lemma_ready_after_busy(
    cal: Calibration,
    then: AfterReady,
    statuses: Seq<Reply>,
    ready: Reply,
)
    requires
        statuses.len() < MAX_STATUS_POLLS,
        all_busy(statuses),
        is_data(ready, 1),
        data_of(ready)[0] & STATUS_BUSY_MASK == 0,
    ensures
        ({
            let (last, steps) = run(
                Phase::Status { cal, polls: 0, then },
                busy_wait(statuses) + seq![ready],
            );
            &&& last == ready_outcome(cal, then).0
            &&& steps.last() == ready_outcome(cal, then).1
            &&& steps.len() == 2 * statuses.len() + 1
        }),
{
    let start = Phase::Status { cal, polls: 0, then };
    let n = statuses.len();
    lemma_run_append(start, busy_wait(statuses), seq![ready]);
    let waiting = Phase::Status { cal, polls: n as u32, then };
    if n == 0 {
        assert(busy_wait(statuses) == Seq::<Reply>::empty());
        assert(run(start, Seq::<Reply>::empty()) == (start, Seq::<Step>::empty()));
    } else {
        lemma_busy_wait(cal, 0, then, statuses);
    }
    assert(run(start, busy_wait(statuses)).0 == waiting);
    reveal_with_fuel(run, 2);
    assert(seq![ready][0] == ready);
    assert(seq![ready].drop_first() =~= Seq::<Reply>::empty());
    let (_, tail) = run(waiting, seq![ready]);
    assert(tail =~= seq![ready_outcome(cal, then).1]);
}

/// Bring-up in which the chip is still busy for fewer than 20 status reads
/// still completes: with a matching chip id and a calibration block, any
/// number of busy statuses below the budget followed by a ready one leaves the
/// sensor ready with that calibration, the last step being `Initialized`.
pub proof fn lemma_bringup_after_busy(
    id: Reply,
    calibration: Reply,
    statuses: Seq<Reply>,
    ready: Reply,
)
    requires
        is_data(id, 1),
        data_of(id)[0] == BMP280_CHIP_ID,
        is_data(calibration, CALIBRATION_LEN as nat),
        statuses.len() < MAX_STATUS_POLLS,
        all_busy(statuses),
        is_data(ready, 1),
        data_of(ready)[0] & STATUS_BUSY_MASK == 0,
    ensures
        ({
            let (last, steps) = run(
                Phase::ChipId,
                seq![id, Reply::Done, Reply::Done, calibration, Reply::Done, Reply::Done]
                    + busy_wait(statuses) + seq![ready],
            );
            &&& last == (Phase::Ready { cal: calibration_of(data_of(calibration)) })
            &&& steps.last() == Step::Initialized
        }),
{
    let cal = calibration_of(data_of(calibration));
    let d = Reply::Done;
    let prefix = seq![id, d, d, calibration, d, d];
    let wait = busy_wait(statuses) + seq![ready];
    assert(prefix + busy_wait(statuses) + seq![ready] =~= prefix + wait);
    lemma_run_append(Phase::ChipId, prefix, wait);
    // The prefix leads to the first status read of bring-up.
    let tail2 = seq![d, d];
    let tail4 = seq![d, calibration] + tail2;
    assert(prefix =~= seq![id, d] + tail4);
    lemma_run_two(Phase::ChipId, id, d, tail4);
    lemma_run_two(Phase::ResetDelay, d, calibration, tail2);
    assert(tail2 =~= seq![d, d] + Seq::<Reply>::empty());
    lemma_run_two(Phase::Config { cal }, d, d, Seq::<Reply>::empty());
    let start = Phase::Status { cal, polls: 0, then: AfterReady::Initialize };
    assert(run(Phase::ChipId, prefix).0 == start);
    lemma_ready_after_busy(cal, AfterReady::Initialize, statuses, ready);
    let (_, second) = run(start, wait);
    assert(second.len() > 0);
    assert((run(Phase::ChipId, prefix).1 + second).last() == second.last());
}

} // verus!
