//! Command set of the STC8H1K28 co-processor, which drives the backlight, the
//! buzzer and the audio mute of the CrowPanel Advance 5.0 (board revision 1.1).
//!
//! The co-processor listens on I2C address `STC8H1K28_ADDR` and takes one
//! byte per command. A backlight level byte (0x05..=0x10) sets the brightness
//! directly. The driver's multi-step operations (reset, init, beep) are given
//! here as sequences of peripheral operations, run in order until one fails.

use vstd::prelude::*;

verus! {

/// I2C address of the STC8H1K28.
pub const STC8H1K28_ADDR: u8 = 0x30;

/// Commands the STC8H1K28 co-processor accepts.
#[derive(Clone, Copy, Debug, PartialEq, Eq, Structural)]
pub enum Command {
    BacklightOff,
    BacklightMin,
    BacklightLow,
    BacklightMed,
    BacklightHigh,
    BacklightMax,
    BuzzerOn,
    BuzzerOff,
    Unmute,
    Init,
    PowerReset,
}

/// The byte that carries command `c`.
pub open spec fn command_code(c: Command) -> u8 {
    match c {
        Command::BacklightOff => 0x05,
        Command::BacklightMin => 0x06,
        Command::BacklightLow => 0x07,
        Command::BacklightMed => 0x08,
        Command::BacklightHigh => 0x09,
        Command::BacklightMax => 0x10,
        Command::BuzzerOn => 0x15,
        Command::BuzzerOff => 0x16,
        Command::Unmute => 0x17,
        Command::Init => 0x18,
        Command::PowerReset => 0x19,
    }
}

impl Command {
    /// The byte sent on the bus for this command.
    pub fn code(&self) -> (b: u8)
        ensures
            b == command_code(*self),
    {
        match self {
            Command::BacklightOff => 0x05,
            Command::BacklightMin => 0x06,
            Command::BacklightLow => 0x07,
            Command::BacklightMed => 0x08,
            Command::BacklightHigh => 0x09,
            Command::BacklightMax => 0x10,
            Command::BuzzerOn => 0x15,
            Command::BuzzerOff => 0x16,
            Command::Unmute => 0x17,
            Command::Init => 0x18,
            Command::PowerReset => 0x19,
        }
    }
}

/// Lowest backlight level byte.
pub const BACKLIGHT_MIN_LEVEL: u8 = 0x05;

/// Highest backlight level byte.
pub const BACKLIGHT_MAX_LEVEL: u8 = 0x10;

/// `brightness` clamped into the backlight range 0x05..=0x10.
pub open spec fn clamp_level(brightness: u8) -> u8 {
    if brightness < BACKLIGHT_MIN_LEVEL {
        BACKLIGHT_MIN_LEVEL
    } else if brightness > BACKLIGHT_MAX_LEVEL {
        BACKLIGHT_MAX_LEVEL
    } else {
        brightness
    }
}

/// The byte that `set_backlight(brightness)` sends: the brightness clamped
/// into the valid range 0x05..=0x10.
pub fn backlight_level(brightness: u8) -> (level: u8)
    ensures
        level == clamp_level(brightness),
        BACKLIGHT_MIN_LEVEL <= level <= BACKLIGHT_MAX_LEVEL,
        0x05 <= brightness <= 0x10 ==> level == brightness,
        brightness < 0x05 ==> level == 0x05,
        brightness > 0x10 ==> level == 0x10,
{
    if brightness < BACKLIGHT_MIN_LEVEL {
        BACKLIGHT_MIN_LEVEL
    } else if brightness > BACKLIGHT_MAX_LEVEL {
        BACKLIGHT_MAX_LEVEL
    } else {
        brightness
    }
}

/// Backlight clamping is the clamp of the brightness to 0x05..=0x10: a
/// brightness inside the range is kept as it is, one below goes to 0x05, one
/// above goes to 0x10.
pub proof fn lemma_clamp_level_is_clamp(b: u8)
    ensures
        0x05 <= b <= 0x10 ==> clamp_level(b) == b,
        b < 0x05 ==> clamp_level(b) == 0x05,
        b > 0x10 ==> clamp_level(b) == 0x10,
{
}

/// The byte of each command, as the co-processor defines it.
pub proof fn lemma_command_bytes()
    ensures
        command_code(Command::BacklightOff) == 0x05,
        command_code(Command::BacklightMin) == 0x06,
        command_code(Command::BacklightLow) == 0x07,
        command_code(Command::BacklightMed) == 0x08,
        command_code(Command::BacklightHigh) == 0x09,
        command_code(Command::BacklightMax) == 0x10,
        command_code(Command::BuzzerOn) == 0x15,
        command_code(Command::BuzzerOff) == 0x16,
        command_code(Command::Unmute) == 0x17,
        command_code(Command::Init) == 0x18,
        command_code(Command::PowerReset) == 0x19,
{
}

/// Distinct commands travel as distinct bytes.
pub proof fn lemma_command_codes_distinct(a: Command, b: Command)
    ensures
        command_code(a) == command_code(b) <==> a == b,
{
}

/// Setting the backlight to the byte of a backlight command sends that very
/// byte: every backlight command is a valid backlight level.
pub proof fn lemma_backlight_commands_are_levels(c: Command)
    requires
        c is BacklightOff || c is BacklightMin || c is BacklightLow || c is BacklightMed
            || c is BacklightHigh || c is BacklightMax,
    ensures
        clamp_level(command_code(c)) == command_code(c),
{
}

/// Backlight clamping keeps the order of brightness values and changes nothing
/// a second time.
pub proof fn lemma_clamp_monotone_idempotent(a: u8, b: u8)
    ensures
        a <= b ==> clamp_level(a) <= clamp_level(b),
        clamp_level(clamp_level(a)) == clamp_level(a),
{
}


/// One step of a co-processor operation.
#[derive(Clone, Copy, Debug, PartialEq, Eq, Structural)]
pub enum PeripheralOp {
    /// Write this byte to the co-processor (fallible).
    Write(u8),
    /// Wait this many milliseconds.
    SleepMs(u64),
    /// Take the reset pin as a push-pull output (fallible).
    ResetPinOutput,
    /// Drive the reset pin low, holding the co-processor in reset (fallible).
    ResetPinLow,
    /// Turn the reset pin into an input, releasing the reset (fallible).
    ResetPinInput,
    /// Leave the reset pin floating (fallible).
    ResetPinFloating,
    /// Log that the co-processor is being reset.
    LogResetting,
    /// Log that the co-processor was initialized.
    LogInitialized,
}

/// The operation that sends command `cmd` (`send_command`, and through it
/// `buzzer_on`, `buzzer_off` and `unmute`).
pub fn send_command_ops(cmd: Command) -> (ops: Vec<PeripheralOp>)
    ensures
        ops@ == seq![PeripheralOp::Write(command_code(cmd))],
{
    let mut ops: Vec<PeripheralOp> = Vec::new();
    ops.push(PeripheralOp::Write(cmd.code()));
    assert(ops@ =~= seq![PeripheralOp::Write(command_code(cmd))]);
    ops
}

/// The operation of `set_backlight(brightness)`: write the clamped level.
pub fn set_backlight_ops(brightness: u8) -> (ops: Vec<PeripheralOp>)
    ensures
        ops@ == seq![PeripheralOp::Write(clamp_level(brightness))],
        0x05 <= brightness <= 0x10 ==> ops@ == seq![PeripheralOp::Write(brightness)],
        brightness < 0x05 ==> ops@ == seq![PeripheralOp::Write(0x05)],
        brightness > 0x10 ==> ops@ == seq![PeripheralOp::Write(0x10)],
{
    let mut ops: Vec<PeripheralOp> = Vec::new();
    ops.push(PeripheralOp::Write(backlight_level(brightness)));
    assert(ops@ =~= seq![PeripheralOp::Write(clamp_level(brightness))]);
    ops
}

/// The operation of `init`: send `Init`, then log and wait 10 ms.
pub fn init_ops() -> (ops: Vec<PeripheralOp>)
    ensures
        ops@ == seq![
            PeripheralOp::Write(command_code(Command::Init)),
            PeripheralOp::LogInitialized,
            PeripheralOp::SleepMs(10),
        ],
{
    let mut ops: Vec<PeripheralOp> = Vec::new();
    ops.push(PeripheralOp::Write(Command::Init.code()));
    ops.push(PeripheralOp::LogInitialized);
    ops.push(PeripheralOp::SleepMs(10));
    assert(ops@ =~= seq![
        PeripheralOp::Write(command_code(Command::Init)),
        PeripheralOp::LogInitialized,
        PeripheralOp::SleepMs(10),
    ]);
    ops
}

/// The operation of `beep(duration_ms)`: buzzer on, wait, buzzer off.
pub fn beep_ops(duration_ms: u64) -> (ops: Vec<PeripheralOp>)
    ensures
        ops@ == seq![
            PeripheralOp::Write(command_code(Command::BuzzerOn)),
            PeripheralOp::SleepMs(duration_ms),
            PeripheralOp::Write(command_code(Command::BuzzerOff)),
        ],
{
    let mut ops: Vec<PeripheralOp> = Vec::new();
    ops.push(PeripheralOp::Write(Command::BuzzerOn.code()));
    ops.push(PeripheralOp::SleepMs(duration_ms));
    ops.push(PeripheralOp::Write(Command::BuzzerOff.code()));
    assert(ops@ =~= seq![
        PeripheralOp::Write(command_code(Command::BuzzerOn)),
        PeripheralOp::SleepMs(duration_ms),
        PeripheralOp::Write(command_code(Command::BuzzerOff)),
    ]);
    ops
}

/// The operation of `hardware_reset`: hold the co-processor in reset for
/// 150 ms through its reset pin, release the pin to high impedance, and give
/// the chip 100 ms to start. It precedes setting up the I2C bus.
pub fn hardware_reset_ops() -> (ops: Vec<PeripheralOp>)
    ensures
        ops@ == seq![
            PeripheralOp::LogResetting,
            PeripheralOp::ResetPinOutput,
            PeripheralOp::ResetPinLow,
            PeripheralOp::SleepMs(150),
            PeripheralOp::ResetPinInput,
            PeripheralOp::ResetPinFloating,
            PeripheralOp::SleepMs(100),
        ],
{
    let mut ops: Vec<PeripheralOp> = Vec::new();
    ops.push(PeripheralOp::LogResetting);
    ops.push(PeripheralOp::ResetPinOutput);
    ops.push(PeripheralOp::ResetPinLow);
    ops.push(PeripheralOp::SleepMs(150));
    ops.push(PeripheralOp::ResetPinInput);
    ops.push(PeripheralOp::ResetPinFloating);
    ops.push(PeripheralOp::SleepMs(100));
    assert(ops@ =~= seq![
        PeripheralOp::LogResetting,
        PeripheralOp::ResetPinOutput,
        PeripheralOp::ResetPinLow,
        PeripheralOp::SleepMs(150),
        PeripheralOp::ResetPinInput,
        PeripheralOp::ResetPinFloating,
        PeripheralOp::SleepMs(100),
    ]);
    ops
}

/// Progress of running a sequence of operations: how many have been carried
/// out, and the error of the one that failed, if any.
pub ghost struct RunState {
    pub ops: Seq<PeripheralOp>,
    pub done: nat,
    pub error: Option<i32>,
}

/// A run of `ops` that has not started.
pub open spec fn run_start(ops: Seq<PeripheralOp>) -> RunState {
    RunState { ops, done: 0, error: None }
}

/// The operation a run performs next, if any: none after a failure or once all
/// operations are done.
pub open spec fn run_next(s: RunState) -> Option<PeripheralOp> {
    if s.error is None && s.done < s.ops.len() {
        Some(s.ops[s.done as int])
    } else {
        None
    }
}

/// The run after the operation it performed came back as `res`.
pub open spec fn run_after(s: RunState, res: Result<(), i32>) -> RunState {
    match res {
        Ok(_) => RunState { done: s.done + 1, ..s },
        Err(e) => RunState { done: s.done + 1, error: Some(e), ..s },
    }
}

/// The run after `n` operations in a row came back successfully.
pub open spec fn run_after_ok(s: RunState, n: nat) -> RunState
    decreases n,
{
    if n == 0 {
        s
    } else {
        run_after(run_after_ok(s, (n - 1) as nat), Ok(()))
    }
}

/// The outcome of a finished run: the first failure's error, or success.
pub open spec fn run_outcome(s: RunState) -> Result<(), i32> {
    match s.error {
        Some(e) => Err(e),
        None => Ok(()),
    }
}

/// Running a sequence of peripheral operations in order, stopping at the
/// first one that fails (the `?` chain of the driver's operations).
pub struct OpRunner {
    ops: Vec<PeripheralOp>,
    done: usize,
    error: Option<i32>,
}

impl View for OpRunner {
    type V = RunState;

    /// The progress of this run.
    closed spec fn view(&self) -> RunState {
        RunState { ops: self.ops@, done: self.done as nat, error: self.error }
    }
}

impl OpRunner {
    #[verifier::type_invariant]
    spec fn inv(self) -> bool {
        self.done <= self.ops@.len()
    }

    /// A run of `ops`.
    pub fn new(ops: Vec<PeripheralOp>) -> (r: Self)
        ensures
            r@ == run_start(ops@),
    {
        OpRunner { ops, done: 0, error: None }
    }

    /// The operation to perform next; `None` once the run is over.
    pub fn next_op(&self) -> (op: Option<PeripheralOp>)
        ensures
            op == run_next(self@),
    {
        proof {
            use_type_invariant(self);
        }
        if self.error.is_none() && self.done < self.ops.len() {
            Some(self.ops[self.done])
        } else {
            None
        }
    }

    /// Takes in the outcome of the operation just performed (infallible
    /// operations report success).
    pub fn report(&mut self, res: Result<(), i32>)
        requires
            run_next(old(self)@) is Some,
        ensures
            final(self)@ == run_after(old(self)@, res),
    {
        proof {
            use_type_invariant(&*self);
        }
        let len = self.ops.len();
        assert(self.done < len);
        match res {
            Ok(_) => {
                self.done = self.done + 1;
            },
            Err(e) => {
                self.done = self.done + 1;
                self.error = Some(e);
            },
        }
    }

    /// The outcome of the run: the error of the operation that failed, or success.
    pub fn outcome(&self) -> (res: Result<(), i32>)
        ensures
            res == run_outcome(self@),
    {
        match self.error {
            Some(e) => Err(e),
            None => Ok(()),
        }
    }
}

/// When every operation succeeds, a run performs each operation exactly once,
/// in order, then stops with success.
pub proof fn lemma_run_all_ok(ops: Seq<PeripheralOp>)
    ensures
        forall|k: nat| k < ops.len() ==> run_next(#[trigger] run_after_ok(run_start(ops), k)) == Some(ops[k as int]),
        run_next(run_after_ok(run_start(ops), ops.len())) is None,
        run_outcome(run_after_ok(run_start(ops), ops.len())) == Ok::<(), i32>(()),
{
    assert forall|k: nat| k <= ops.len() implies {
        let s = #[trigger] run_after_ok(run_start(ops), k);
        s.ops == ops && s.done == k && s.error is None
    } by {
        lemma_run_after_ok(ops, k);
    }
}

proof fn lemma_run_after_ok(ops: Seq<PeripheralOp>, k: nat)
    ensures
        run_after_ok(run_start(ops), k).ops == ops,
        run_after_ok(run_start(ops), k).done == k,
        run_after_ok(run_start(ops), k).error is None,
    decreases k,
{
    if k > 0 {
        lemma_run_after_ok(ops, (k - 1) as nat);
    }
}

/// A failing operation ends the run: nothing after it is performed, and the
/// run's outcome is that operation's error.
pub proof fn lemma_run_stops_at_failure(s: RunState, e: i32)
    ensures
        run_next(run_after(s, Err(e))) is None,
        run_outcome(run_after(s, Err(e))) == Err::<(), i32>(e),
{
}

} // verus!
