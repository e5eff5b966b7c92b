//! Behaviour of the debounced shutdown/power driver against scripted
//! hardware.

use chartplotterhat_utils::ChartPlotterHatPower;
use chartplotterhat_utils::LineRead;
use chartplotterhat_utils::SimDelayMillis;
use chartplotterhat_utils::SimFault;
use chartplotterhat_utils::SimInputLine;
use chartplotterhat_utils::SimOutputLine;

fn monitor(
    script: Vec<LineRead<SimFault>>,
) -> ChartPlotterHatPower<SimInputLine, SimOutputLine, SimDelayMillis> {
    ChartPlotterHatPower::new(
        SimInputLine::new(script),
        SimOutputLine::new(vec![None]),
        SimDelayMillis::new(),
    )
}

fn high() -> LineRead<SimFault> {
    LineRead::Level(true)
}

fn low() -> LineRead<SimFault> {
    LineRead::Level(false)
}

#[test]
fn set_running_drives_indicator_high() {
    let mut cph = monitor(vec![low()]);
    assert_eq!(cph.set_running(), Ok(()));
    assert_eq!(cph.running_pin.written, vec![true]);
    // calling it again is harmless, so a second outcome must be scripted
    let mut cph = monitor(vec![low()]);
    cph.running_pin = SimOutputLine::new(vec![None, None]);
    assert_eq!(cph.set_running(), Ok(()));
    assert_eq!(cph.set_running(), Ok(()));
    assert_eq!(cph.running_pin.written, vec![true, true]);
}

#[test]
fn set_running_surfaces_pin_fault() {
    let mut cph = monitor(vec![low()]);
    cph.running_pin = SimOutputLine::new(vec![Some(SimFault)]);
    assert_eq!(cph.set_running(), Err(SimFault));
    assert_eq!(cph.running_pin.written, vec![true]);
}

#[test]
fn sustained_request_is_confirmed() {
    // first read high and all six re-reads high: confirmed
    let mut cph = monitor(vec![high(); 7]);
    assert_eq!(cph.shutdown_signal(), Ok(true));
    assert_eq!(cph.shutdown_pin.pos, 7);
    assert_eq!(cph.timer.delays, vec![100; 6]);
}

#[test]
fn low_first_read_returns_at_once_without_delay() {
    // the fast path: no delay is ever requested
    let mut cph = monitor(vec![low(), high(), high(), high(), high(), high(), high()]);
    assert_eq!(cph.shutdown_signal(), Ok(false));
    assert_eq!(cph.shutdown_pin.pos, 1);
    assert_eq!(cph.timer.delays, Vec::<u32>::new());
}

#[test]
fn glitch_in_window_rejects_without_consuming_rest() {
    // a low at the third re-read rejects at once; the remaining scripted
    // reads stay unconsumed
    let mut cph = monitor(vec![high(), high(), high(), low(), high(), high(), high()]);
    assert_eq!(cph.shutdown_signal(), Ok(false));
    assert_eq!(cph.shutdown_pin.pos, 4);
    assert_eq!(cph.timer.delays, vec![100; 3]);
}

#[test]
fn low_at_last_re_read_still_rejects() {
    let mut cph = monitor(vec![high(), high(), high(), high(), high(), high(), low()]);
    assert_eq!(cph.shutdown_signal(), Ok(false));
    assert_eq!(cph.shutdown_pin.pos, 7);
    assert_eq!(cph.timer.delays, vec![100; 6]);
}

#[test]
fn fault_on_first_read_aborts() {
    let mut cph = monitor(vec![
        LineRead::Fault(SimFault),
        high(),
        high(),
        high(),
        high(),
        high(),
        high(),
    ]);
    assert_eq!(cph.shutdown_signal(), Err(SimFault));
    assert_eq!(cph.shutdown_pin.pos, 1);
    assert_eq!(cph.timer.delays, Vec::<u32>::new());
}

#[test]
fn fault_during_confirmation_aborts() {
    let mut cph = monitor(vec![
        high(),
        high(),
        LineRead::Fault(SimFault),
        high(),
        high(),
        high(),
        high(),
    ]);
    assert_eq!(cph.shutdown_signal(), Err(SimFault));
    assert_eq!(cph.shutdown_pin.pos, 3);
    assert_eq!(cph.timer.delays, vec![100; 2]);
}

#[test]
fn repeated_polls_consume_the_line_in_order() {
    // two polls against one script: a rejected glitch, then a confirmation
    let mut script = vec![high(), low(), high(), high(), high(), high(), high()];
    script.extend(vec![high(); 7]);
    let mut cph = monitor(script);
    assert_eq!(cph.shutdown_signal(), Ok(false));
    assert_eq!(cph.shutdown_pin.pos, 2);
    assert_eq!(cph.shutdown_signal(), Ok(true));
    assert_eq!(cph.shutdown_pin.pos, 9);
    assert_eq!(cph.timer.delays, vec![100; 7]);
}
