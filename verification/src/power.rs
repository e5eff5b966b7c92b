//! Debounced shutdown/power signalling driver.

use vstd::prelude::*;

use crate::hw::DelayMillis;
use crate::hw::InputLine;
use crate::hw::LineRead;
use crate::hw::OutputLine;

verus! {

/// How many confirming re-reads a shutdown request must survive.
pub const CONFIRM_READS: u32 = 6;

/// How long the driver waits between confirming re-reads, in milliseconds.
pub const CONFIRM_WAIT_MS: u32 = 100;

/// The result of running the confirmation loop against the scripted line
/// outcomes `plan`, with `window` re-reads left: confirmed only if every
/// remaining re-read sees the line high; a low read rejects at once; a
/// faulting read surfaces the fault.
pub open spec fn debounce_outcome<F>(plan: Seq<LineRead<F>>, window: nat) -> Result<bool, F>
    decreases window,
{
    if window == 0 {
        Ok(true)
    } else {
        match plan[0] {
            LineRead::Fault(f) => Err(f),
            LineRead::Level(level) => if !level {
                Ok(false)
            } else {
                debounce_outcome(plan.skip(1), (window - 1) as nat)
            },
        }
    }
}

/// How many scripted outcomes the confirmation loop consumes: one per
/// re-read, stopping at the first low or faulting read.
pub open spec fn debounce_consumed<F>(plan: Seq<LineRead<F>>, window: nat) -> nat
    decreases window,
{
    if window == 0 {
        0
    } else {
        match plan[0] {
            LineRead::Fault(f) => 1,
            LineRead::Level(level) => if !level {
                1
            } else {
                1 + debounce_consumed(plan.skip(1), (window - 1) as nat)
            },
        }
    }
}

/// The result of one whole `shutdown_signal` call against the scripted
/// line outcomes `plan`: an immediate answer from the first read unless it
/// sees the line high, in which case the confirmation loop decides.
pub open spec fn shutdown_outcome<F>(plan: Seq<LineRead<F>>) -> Result<bool, F> {
    match plan[0] {
        LineRead::Fault(f) => Err(f),
        LineRead::Level(level) => if !level {
            Ok(false)
        } else {
            debounce_outcome(plan.skip(1), CONFIRM_READS as nat)
        },
    }
}

/// How many scripted outcomes one whole `shutdown_signal` call consumes.
pub open spec fn shutdown_consumed<F>(plan: Seq<LineRead<F>>) -> nat {
    match plan[0] {
        LineRead::Fault(f) => 1,
        LineRead::Level(level) => if !level {
            1
        } else {
            1 + debounce_consumed(plan.skip(1), CONFIRM_READS as nat)
        },
    }
}

/// `n` identical confirmation waits, as requested of the delay source.
pub open spec fn confirm_waits(n: nat) -> Seq<u32> {
    Seq::new(n, |i: int| CONFIRM_WAIT_MS)
}

/// Device to work with the chart-plotter hat's power functions: a
/// shutdown-request input, a running-indicator output, and a millisecond
/// delay source for debouncing.
pub struct ChartPlotterHatPower<SP, RP, D> {
    /// The shutdown-request input line.
    pub shutdown_pin: SP,
    /// The running-indicator output line.  Write-only: no decision in this
    /// driver ever reads it back.
    pub running_pin: RP,
    /// The delay source used between confirming re-reads.
    pub timer: D,
}

impl<SP, RP, D> ChartPlotterHatPower<SP, RP, D> where
    SP: InputLine,
    RP: OutputLine,
    D: DelayMillis,
 {
    /// Create a new `ChartPlotterHatPower` device from already-opened
    /// handles.
    pub fn new(shutdown_pin: SP, running_pin: RP, timer: D) -> (r: Self)
        ensures
            r.shutdown_pin == shutdown_pin,
            r.running_pin == running_pin,
            r.timer == timer,
    {
        ChartPlotterHatPower { shutdown_pin, running_pin, timer }
    }

    /// Set the running indicator high, telling the microcontroller the
    /// host is up.  Idempotent; a pin-write fault is surfaced unchanged.
    pub fn set_running(&mut self) -> (r: Result<(), RP::Fault>)
        requires
            old(self).running_pin.future().len() > 0,
        ensures
            final(self).running_pin.writes() == old(self).running_pin.writes().push(true),
            final(self).running_pin.future() == old(self).running_pin.future().skip(1),
            final(self).shutdown_pin == old(self).shutdown_pin,
            final(self).timer == old(self).timer,
            (match old(self).running_pin.future()[0] {
                None => r == Ok::<(), RP::Fault>(()),
                Some(f) => r == Err::<(), RP::Fault>(f),
            }),
    {
        match self.running_pin.set_high() {
            Ok(_) => Ok(()),
            Err(f) => Err(f),
        }
    }

    /// Check the shutdown-request line.  A low first read answers
    /// `Ok(false)` at once, with no delay.  A high first read starts the
    /// confirmation loop: up to [`CONFIRM_READS`] times, wait
    /// [`CONFIRM_WAIT_MS`] milliseconds and re-read; the first low re-read
    /// answers `Ok(false)` at once, and only a request held high through
    /// every re-read answers `Ok(true)`.  A faulting read aborts the whole
    /// check and surfaces the fault.
    pub fn shutdown_signal(&mut self) -> (r: Result<bool, SP::Fault>)
        requires
            old(self).shutdown_pin.future().len() >= CONFIRM_READS + 1,
        ensures
            r == shutdown_outcome(old(self).shutdown_pin.future()),
            final(self).shutdown_pin.future() == old(self).shutdown_pin.future().skip(
                shutdown_consumed(old(self).shutdown_pin.future()) as int,
            ),
            final(self).timer.log() == old(self).timer.log() + confirm_waits(
                (shutdown_consumed(old(self).shutdown_pin.future()) - 1) as nat,
            ),
            final(self).running_pin == old(self).running_pin,
    {
        let ghost plan = old(self).shutdown_pin.future();
        let ghost log0 = old(self).timer.log();
        let first = match self.shutdown_pin.is_high() {
            Ok(level) => level,
            Err(f) => {
                proof {
                    assert(self.timer.log() =~= log0 + confirm_waits(0));
                }
                return Err(f);
            },
        };
        if !first {
            proof {
                assert(self.timer.log() =~= log0 + confirm_waits(0));
            }
            return Ok(false);
        }
        proof {
            assert(self.timer.log() =~= log0 + confirm_waits(0));
        }
        let mut n: u32 = 0;
        while n < CONFIRM_READS
            invariant
                plan == old(self).shutdown_pin.future(),
                log0 == old(self).timer.log(),
                n <= CONFIRM_READS,
                plan.len() >= CONFIRM_READS + 1,
                plan[0] == LineRead::<SP::Fault>::Level(true),
                self.shutdown_pin.future() == plan.skip(1 + n as int),
                self.timer.log() == log0 + confirm_waits(n as nat),
                self.running_pin == old(self).running_pin,
                debounce_outcome(plan.skip(1), CONFIRM_READS as nat) == debounce_outcome(
                    plan.skip(1 + n as int),
                    (CONFIRM_READS - n) as nat,
                ),
                debounce_consumed(plan.skip(1), CONFIRM_READS as nat) == n + debounce_consumed(
                    plan.skip(1 + n as int),
                    (CONFIRM_READS - n) as nat,
                ),
            decreases CONFIRM_READS - n,
        {
            let ghost s = plan.skip(1 + n as int);
            let ghost w = (CONFIRM_READS - n) as nat;
            self.timer.delay_ms(CONFIRM_WAIT_MS);
            let level = match self.shutdown_pin.is_high() {
                Ok(level) => level,
                Err(f) => {
                    proof {
                        assert(s[0] == LineRead::<SP::Fault>::Fault(f));
                        assert(debounce_outcome(s, w) == Err::<bool, SP::Fault>(f));
                        assert(debounce_consumed(s, w) == 1);
                        assert(shutdown_consumed(plan) == 2 + n);
                        assert(self.shutdown_pin.future() =~= plan.skip(2 + n as int));
                        assert(self.timer.log() =~= log0 + confirm_waits((n + 1) as nat));
                    }
                    return Err(f);
                },
            };
            if !level {
                proof {
                    assert(s[0] == LineRead::<SP::Fault>::Level(false));
                    assert(debounce_outcome(s, w) == Ok::<bool, SP::Fault>(false));
                    assert(debounce_consumed(s, w) == 1);
                    assert(shutdown_consumed(plan) == 2 + n);
                    assert(self.shutdown_pin.future() =~= plan.skip(2 + n as int));
                    assert(self.timer.log() =~= log0 + confirm_waits((n + 1) as nat));
                }
                return Ok(false);
            }
            proof {
                assert(s[0] == LineRead::<SP::Fault>::Level(true));
                assert(debounce_outcome(s, w) == debounce_outcome(s.skip(1), (w - 1) as nat));
                assert(debounce_consumed(s, w) == 1 + debounce_consumed(s.skip(1), (w - 1) as nat));
                assert(s.skip(1) =~= plan.skip(2 + n as int));
                assert(self.shutdown_pin.future() =~= plan.skip(2 + n as int));
                assert(self.timer.log() =~= log0 + confirm_waits((n + 1) as nat));
            }
            n = n + 1;
        }
        Ok(true)
    }
}

/// Law: the debounce confirms a shutdown request if and only if the first
/// read and every one of the following re-reads in the window observe the
/// line high.
pub proof fn lemma_debounce_confirms_iff_sustained<F>(plan: Seq<LineRead<F>>)
    requires
        plan.len() >= CONFIRM_READS + 1,
    ensures
        shutdown_outcome(plan) == Ok::<bool, F>(true) <==> (forall|i: int|
            0 <= i <= CONFIRM_READS ==> plan[i] == LineRead::<F>::Level(true)),
{
    lemma_debounce_window_sustained(plan.skip(1), CONFIRM_READS as nat);
    if shutdown_outcome(plan) == Ok::<bool, F>(true) {
        assert(plan[0] == LineRead::<F>::Level(true));
        assert forall|i: int| 0 <= i <= CONFIRM_READS implies plan[i] == LineRead::<F>::Level(
            true,
        ) by {
            if i >= 1 {
                assert(plan.skip(1)[i - 1] == plan[i]);
            }
        }
    }
    if forall|i: int| 0 <= i <= CONFIRM_READS ==> plan[i] == LineRead::<F>::Level(true) {
        assert forall|j: int| 0 <= j < CONFIRM_READS implies plan.skip(1)[j] == LineRead::<
            F,
        >::Level(true) by {
            assert(plan[j + 1] == LineRead::<F>::Level(true));
        }
    }
}

/// Helper for the confirmation window alone: all-high is the one way to a
/// confirmed result.
proof fn lemma_debounce_window_sustained<F>(plan: Seq<LineRead<F>>, window: nat)
    requires
        plan.len() >= window,
    ensures
        debounce_outcome(plan, window) == Ok::<bool, F>(true) <==> (forall|i: int|
            0 <= i < window ==> plan[i] == LineRead::<F>::Level(true)),
    decreases window,
{
    if window > 0 {
        lemma_debounce_window_sustained(plan.skip(1), (window - 1) as nat);
        match plan[0] {
            LineRead::Fault(f) => {
                assert(debounce_outcome(plan, window) == Err::<bool, F>(f));
            },
            LineRead::Level(level) => {
                if level {
                    if debounce_outcome(plan, window) == Ok::<bool, F>(true) {
                        assert forall|i: int| 0 <= i < window implies plan[i] == LineRead::<
                            F,
                        >::Level(true) by {
                            if i >= 1 {
                                assert(plan.skip(1)[i - 1] == plan[i]);
                            }
                        }
                    }
                    if forall|i: int| 0 <= i < window ==> plan[i] == LineRead::<F>::Level(true) {
                        assert forall|j: int| 0 <= j < window - 1 implies plan.skip(1)[j]
                            == LineRead::<F>::Level(true) by {
                            assert(plan[j + 1] == LineRead::<F>::Level(true));
                        }
                    }
                }
            },
        }
    }
}

/// Law: a low read anywhere in the window rejects the request at once,
/// leaving every later scripted read unconsumed.
pub proof fn lemma_debounce_rejects_at_first_low<F>(plan: Seq<LineRead<F>>, j: int)
    requires
        plan.len() >= CONFIRM_READS + 1,
        0 <= j <= CONFIRM_READS,
        plan[j] == LineRead::<F>::Level(false),
        forall|i: int| 0 <= i < j ==> plan[i] == LineRead::<F>::Level(true),
    ensures
        shutdown_outcome(plan) == Ok::<bool, F>(false),
        shutdown_consumed(plan) == j + 1,
{
    if j > 0 {
        lemma_debounce_window_rejects(plan.skip(1), CONFIRM_READS as nat, j - 1);
    }
}

/// Helper for the confirmation window alone: the first low read decides.
proof fn lemma_debounce_window_rejects<F>(plan: Seq<LineRead<F>>, window: nat, j: int)
    requires
        plan.len() >= window,
        0 <= j < window,
        plan[j] == LineRead::<F>::Level(false),
        forall|i: int| 0 <= i < j ==> plan[i] == LineRead::<F>::Level(true),
    ensures
        debounce_outcome(plan, window) == Ok::<bool, F>(false),
        debounce_consumed(plan, window) == j + 1,
    decreases window,
{
    if j == 0 {
        assert(debounce_outcome(plan, window) == Ok::<bool, F>(false));
    } else {
        assert(plan[0] == LineRead::<F>::Level(true));
        assert(plan.skip(1)[j - 1] == plan[j]);
        assert forall|i: int| 0 <= i < j - 1 implies plan.skip(1)[i] == LineRead::<F>::Level(
            true,
        ) by {
            assert(plan[i + 1] == LineRead::<F>::Level(true));
        }
        lemma_debounce_window_rejects(plan.skip(1), (window - 1) as nat, j - 1);
    }
}

/// Law: when the first read already sees the line low the driver answers
/// at once, consuming that one read and requesting no delay at all.
pub proof fn lemma_fast_path_no_delay<F>(plan: Seq<LineRead<F>>)
    requires
        plan.len() >= 1,
        plan[0] == LineRead::<F>::Level(false),
    ensures
        shutdown_outcome(plan) == Ok::<bool, F>(false),
        shutdown_consumed(plan) == 1,
        confirm_waits((shutdown_consumed(plan) - 1) as nat) == Seq::<u32>::empty(),
{
    assert(confirm_waits(0) =~= Seq::<u32>::empty());
}

} // verus!
