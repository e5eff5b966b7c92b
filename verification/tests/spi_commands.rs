//! Behaviour of the command protocol driver against a scripted transport
//! and chip-select line.

use chartplotterhat_utils::ChartPlotterHatSpi;
use chartplotterhat_utils::SimDelayMicros;
use chartplotterhat_utils::SimFault;
use chartplotterhat_utils::SimOutputLine;
use chartplotterhat_utils::SimTransfer;
use chartplotterhat_utils::SpiError;
use chartplotterhat_utils::XferReply;

/// A driver whose chip-select always succeeds and whose transport answers
/// the given replies.
fn link(
    replies: Vec<XferReply<SimFault>>,
) -> ChartPlotterHatSpi<SimTransfer, SimOutputLine, SimDelayMicros> {
    let writes = vec![None; 2 * (replies.len() / 3 + 1)];
    ChartPlotterHatSpi::new(
        SimTransfer::new(replies),
        SimOutputLine::new(writes),
        SimDelayMicros::new(),
    )
}

fn byte(b: u8) -> XferReply<SimFault> {
    XferReply::Byte(b)
}

#[test]
fn get_version_returns_major_minor() {
    // the reply to the command byte carries nothing; the replies to the
    // payload and trailing transfers are major and minor
    let mut cph = link(vec![byte(0xAA), byte(1), byte(9)]);
    assert_eq!(cph.get_version(), Ok([1, 9]));
    assert_eq!(cph.spi.txed, vec![0x04, 0x00, 0x00]);
}

#[test]
fn exchange_frames_three_transfers_between_select_writes() {
    // one assert (low), exactly three single-byte transfers, one deassert
    // (high), and the four protocol waits, whatever the command
    let mut cph = link(vec![byte(0), byte(0), byte(0)]);
    assert_eq!(cph.get_can_hardware(), Ok(false));
    assert_eq!(cph.cs.written, vec![false, true]);
    assert_eq!(cph.spi.txed.len(), 3);
    assert_eq!(cph.timer.delays, vec![50, 40, 20, 10]);
}

#[test]
fn get_can_hardware_reads_flag_byte() {
    let mut cph = link(vec![byte(0), byte(1), byte(0)]);
    assert_eq!(cph.get_can_hardware(), Ok(true));
    assert_eq!(cph.spi.txed, vec![0x06, 0x00, 0x00]);
    let mut cph = link(vec![byte(0), byte(2), byte(0)]);
    assert_eq!(cph.get_can_hardware(), Ok(false));
}

#[test]
fn enter_bootloader_sends_its_command() {
    let mut cph = link(vec![byte(0), byte(0), byte(0)]);
    assert_eq!(cph.enter_bootloader(), Ok(()));
    assert_eq!(cph.spi.txed, vec![0x05, 0x00, 0x00]);
}

#[test]
fn toggle_eeprom_sends_its_command() {
    let mut cph = link(vec![byte(0), byte(0), byte(0)]);
    assert_eq!(cph.toggle_eeprom(), Ok(()));
    assert_eq!(cph.spi.txed, vec![0x03, 0x00, 0x00]);
}

#[test]
fn set_channel_accumulates_mask_and_sends_it() {
    // channels 0, 2, 4 in sequence: each exchange carries the cumulative
    // mask with the new bit already set
    let mut cph = link(vec![byte(0); 9]);
    assert_eq!(cph.set_channel(0), Ok(()));
    assert_eq!(cph.set_channel(2), Ok(()));
    assert_eq!(cph.set_channel(4), Ok(()));
    assert_eq!(cph.channels, 0b10101);
    assert_eq!(
        cph.spi.txed,
        vec![0x01, 0b00001, 0x00, 0x01, 0b00101, 0x00, 0x01, 0b10101, 0x00]
    );
}

#[test]
fn set_channel_rejects_out_of_range_channel_without_hardware_access() {
    let mut cph = link(vec![byte(0); 3]);
    assert_eq!(cph.set_channel(5), Err(SpiError::BadChannel));
    assert_eq!(cph.channels, 0);
    assert_eq!(cph.spi.txed, Vec::<u8>::new());
    assert_eq!(cph.cs.written, Vec::<bool>::new());
    assert_eq!(cph.timer.delays, Vec::<u32>::new());
}

#[test]
fn get_channels_reports_device_mask() {
    let mut cph = link(vec![byte(0), byte(0b01011), byte(0)]);
    assert_eq!(cph.get_channels(), Ok(0b01011));
    assert_eq!(cph.spi.txed, vec![0x02, 0x00, 0x00]);
}

#[test]
fn get_reading_assembles_big_endian_value() {
    let mut cph = link(vec![byte(0), byte(0x01), byte(0x2C)]);
    assert_eq!(cph.get_reading(0), Ok(300));
    assert_eq!(cph.spi.txed, vec![0x10, 0x00, 0x00]);
}

#[test]
fn get_reading_offsets_command_by_channel() {
    let mut cph = link(vec![byte(0), byte(0xFF), byte(0xFF)]);
    assert_eq!(cph.get_reading(4), Ok(0xFFFF));
    assert_eq!(cph.spi.txed, vec![0x14, 0x00, 0x00]);
}

#[test]
fn get_reading_rejects_out_of_range_channel_without_hardware_access() {
    let mut cph = link(vec![byte(0); 3]);
    assert_eq!(cph.get_reading(5), Err(SpiError::BadChannel));
    assert_eq!(cph.spi.txed, Vec::<u8>::new());
    assert_eq!(cph.cs.written, Vec::<bool>::new());
}

#[test]
fn payload_transfer_fault_aborts_with_select_still_asserted() {
    // the second transfer fails: the fault is surfaced, the trailing zero
    // is never sent, the deassert is never attempted, and only the first
    // two waits happened
    let mut cph = link(vec![byte(0), XferReply::Fault(SimFault), byte(0)]);
    assert_eq!(cph.get_version(), Err(SpiError::Spi(SimFault)));
    assert_eq!(cph.spi.txed, vec![0x04, 0x00]);
    assert_eq!(cph.cs.written, vec![false]);
    assert_eq!(cph.timer.delays, vec![50, 40]);
}

#[test]
fn command_transfer_fault_aborts_before_payload() {
    let mut cph = link(vec![XferReply::Fault(SimFault), byte(0), byte(0)]);
    assert_eq!(cph.get_channels(), Err(SpiError::Spi(SimFault)));
    assert_eq!(cph.spi.txed, vec![0x02]);
    assert_eq!(cph.cs.written, vec![false]);
    assert_eq!(cph.timer.delays, vec![50]);
}

#[test]
fn select_assert_fault_aborts_before_any_transfer() {
    let mut cph = ChartPlotterHatSpi::new(
        SimTransfer::new(vec![byte(0), byte(0), byte(0)]),
        SimOutputLine::new(vec![Some(SimFault), None]),
        SimDelayMicros::new(),
    );
    assert_eq!(cph.get_version(), Err(SpiError::Pin(SimFault)));
    assert_eq!(cph.spi.txed, Vec::<u8>::new());
    assert_eq!(cph.cs.written, vec![false]);
    assert_eq!(cph.timer.delays, Vec::<u32>::new());
}

#[test]
fn select_deassert_fault_is_surfaced_after_full_frame() {
    let mut cph = ChartPlotterHatSpi::new(
        SimTransfer::new(vec![byte(0), byte(3), byte(4)]),
        SimOutputLine::new(vec![None, Some(SimFault)]),
        SimDelayMicros::new(),
    );
    assert_eq!(cph.get_version(), Err(SpiError::Pin(SimFault)));
    assert_eq!(cph.spi.txed, vec![0x04, 0x00, 0x00]);
    assert_eq!(cph.cs.written, vec![false, true]);
    assert_eq!(cph.timer.delays, vec![50, 40, 20, 10]);
}

#[test]
fn transport_fault_does_not_roll_back_channel_mask() {
    // the mask is updated before the exchange, as the device protocol
    // expects: a failed exchange leaves the local bit set
    let mut cph = link(vec![XferReply::Fault(SimFault), byte(0), byte(0)]);
    assert_eq!(cph.set_channel(3), Err(SpiError::Spi(SimFault)));
    assert_eq!(cph.channels, 0b01000);
}
