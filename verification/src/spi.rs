//! Timed full-duplex command protocol driver for the microcontroller.
//!
//! One exchange is a three-byte frame — command byte, payload byte,
//! trailing zero — sent as three single-byte transfers between a
//! chip-select assert and deassert, with a fixed wait after the assert and
//! after each transfer so the microcontroller's software link has time to
//! decode and answer.  The reply bytes clocked back during the second and
//! third transfers carry the response.

use vstd::prelude::*;

use crate::hw::ByteTransfer;
use crate::hw::DelayMicros;
use crate::hw::OutputLine;
use crate::hw::XferReply;

verus! {

/// SPI driver error.
#[derive(Debug, PartialEq, Eq)]
pub enum SpiError<SE, PE> {
    /// Transport error from a failed transfer.
    Spi(SE),
    /// Pin error from a failed chip-select write.
    Pin(PE),
    /// The requested ADC channel does not exist.
    BadChannel,
}

/// The highest usable ADC channel number; channels are numbered from 0.
pub const LAST_CHANNEL: u8 = 4;

/// The framed bytes of one exchange: command, payload, trailing zero.
pub open spec fn frame(addr: u8, data: u8) -> Seq<u8> {
    seq![addr, data, 0u8]
}

/// The protocol waits, in microseconds: after the chip-select assert and
/// after each of the three transfers.  Fixed by the microcontroller
/// firmware's timing budget.
pub open spec fn protocol_waits() -> Seq<u32> {
    seq![50u32, 40u32, 20u32, 10u32]
}

/// How many of the three transfers the driver attempts against these
/// scripted outcomes: none if chip-select cannot be asserted, and nothing
/// after the first transport fault.
pub open spec fn xfers_attempted<SE, PE>(
    cs_plan: Seq<Option<PE>>,
    bus_plan: Seq<XferReply<SE>>,
) -> nat {
    if cs_plan[0] is Some {
        0
    } else if bus_plan[0] is Fault {
        1
    } else if bus_plan[1] is Fault {
        2
    } else {
        3
    }
}

/// Whether the exchange runs to its end: chip-select asserted and all
/// three transfers answered, so that the deassert write is attempted.
pub open spec fn exchange_runs_to_end<SE, PE>(
    cs_plan: Seq<Option<PE>>,
    bus_plan: Seq<XferReply<SE>>,
) -> bool {
    &&& cs_plan[0] is None
    &&& bus_plan[0] is Byte
    &&& bus_plan[1] is Byte
    &&& bus_plan[2] is Byte
}

/// The chip-select levels the driver attempts to write: always the
/// assert (low); the deassert (high) only when the exchange runs to its
/// end.  On an earlier fault the line is left asserted.
pub open spec fn cs_attempts<SE, PE>(
    cs_plan: Seq<Option<PE>>,
    bus_plan: Seq<XferReply<SE>>,
) -> Seq<bool> {
    if exchange_runs_to_end(cs_plan, bus_plan) {
        seq![false, true]
    } else {
        seq![false]
    }
}

/// The waits the driver performs: one after the chip-select assert and
/// one after each answered transfer, cut short at the first fault.
pub open spec fn waits_performed<SE, PE>(
    cs_plan: Seq<Option<PE>>,
    bus_plan: Seq<XferReply<SE>>,
) -> Seq<u32> {
    protocol_waits().take(
        if cs_plan[0] is Some {
            0
        } else if bus_plan[0] is Fault {
            1
        } else if bus_plan[1] is Fault {
            2
        } else if bus_plan[2] is Fault {
            3
        } else {
            4
        },
    )
}

/// The result of one exchange against these scripted outcomes: the bytes
/// answered to the payload and trailing transfers, or the first fault
/// encountered, in the order the steps run.
pub open spec fn exchange_result<SE, PE>(
    cs_plan: Seq<Option<PE>>,
    bus_plan: Seq<XferReply<SE>>,
) -> Result<(u8, u8), SpiError<SE, PE>> {
    match cs_plan[0] {
        Some(f) => Err(SpiError::Pin(f)),
        None => match bus_plan[0] {
            XferReply::Fault(f) => Err(SpiError::Spi(f)),
            XferReply::Byte(b0) => match bus_plan[1] {
                XferReply::Fault(f) => Err(SpiError::Spi(f)),
                XferReply::Byte(b1) => match bus_plan[2] {
                    XferReply::Fault(f) => Err(SpiError::Spi(f)),
                    XferReply::Byte(b2) => match cs_plan[1] {
                        Some(f) => Err(SpiError::Pin(f)),
                        None => Ok((b1, b2)),
                    },
                },
            },
        },
    }
}

/// The 16-bit analog reading assembled big-endian from the two response
/// bytes: the first byte is the high byte.
pub open spec fn be_word(hi: u8, lo: u8) -> u16 {
    ((hi as int) * 256 + (lo as int)) as u16
}

/// Device to interact with the chart-plotter hat's command functions: a
/// full-duplex byte transport, a software-driven chip-select output, a
/// microsecond delay source, and the last channel-enable mask sent.
pub struct ChartPlotterHatSpi<SPI, CS, D> {
    /// The full-duplex byte transport.
    pub spi: SPI,
    /// The chip-select output line, active low.
    pub cs: CS,
    /// The driver's mirror of the enabled-channel mask, one bit per
    /// channel, set-only: bits are only ever added.
    pub channels: u8,
    /// The delay source used for the protocol waits.
    pub timer: D,
}

/// What one exchange with command `addr` and payload `data` does to the
/// transport, chip-select and delay models: it sends a prefix of the
/// frame, attempts the bracketing chip-select writes, and performs the
/// protocol waits, each cut short at the first fault.
pub open spec fn exchange_effect<SPI, CS, D>(
    pre: ChartPlotterHatSpi<SPI, CS, D>,
    post: ChartPlotterHatSpi<SPI, CS, D>,
    addr: u8,
    data: u8,
) -> bool where SPI: ByteTransfer, CS: OutputLine, D: DelayMicros {
    let cs_plan = pre.cs.future();
    let bus_plan = pre.spi.future();
    &&& post.spi.sent() == pre.spi.sent() + frame(addr, data).take(
        xfers_attempted(cs_plan, bus_plan) as int,
    )
    &&& post.spi.future() == bus_plan.skip(xfers_attempted(cs_plan, bus_plan) as int)
    &&& post.cs.writes() == pre.cs.writes() + cs_attempts(cs_plan, bus_plan)
    &&& post.cs.future() == cs_plan.skip(cs_attempts(cs_plan, bus_plan).len() as int)
    &&& post.timer.log() == pre.timer.log() + waits_performed(cs_plan, bus_plan)
}

impl<SPI, CS, D> ChartPlotterHatSpi<SPI, CS, D> where
    SPI: ByteTransfer,
    CS: OutputLine,
    D: DelayMicros,
 {
    /// Create a new `ChartPlotterHatSpi` device from already-opened
    /// handles, with no channel yet enabled.
    pub fn new(spi: SPI, cs: CS, timer: D) -> (r: Self)
        ensures
            r.spi == spi,
            r.cs == cs,
            r.timer == timer,
            r.channels == 0,
    {
        ChartPlotterHatSpi { spi, cs, channels: 0, timer }
    }

    /// Perform one whole exchange: assert chip-select, send the three
    /// frame bytes one at a time with the protocol waits between them,
    /// deassert chip-select, and return the bytes answered to the payload
    /// and trailing transfers.  The first transport or pin fault aborts
    /// the exchange at once and is surfaced; chip-select is then left
    /// asserted.
    fn full_duplex(&mut self, addr: u8, data: u8) -> (r: Result<
        [u8; 2],
        SpiError<SPI::Fault, CS::Fault>,
    >)
        requires
            old(self).cs.future().len() >= 2,
            old(self).spi.future().len() >= 3,
        ensures
            exchange_effect(*old(self), *final(self), addr, data),
            final(self).channels == old(self).channels,
            (match r {
                Ok(v) => exchange_result(old(self).cs.future(), old(self).spi.future()) matches Ok(
                    p,
                ) && v@ == seq![p.0, p.1],
                Err(e) => exchange_result(old(self).cs.future(), old(self).spi.future()) == Err::<(u8, u8), SpiError<SPI::Fault, CS::Fault>>(e),
            }),
    {
        let ghost cs_plan = old(self).cs.future();
        let ghost bus_plan = old(self).spi.future();
        match self.cs.set_low() {
            Ok(_) => (),
            Err(f) => {
                proof {
                    assert(self.spi.sent() =~= old(self).spi.sent() + frame(addr, data).take(0));
                    assert(self.spi.future() =~= bus_plan.skip(0));
                    assert(self.cs.writes() =~= old(self).cs.writes() + seq![false]);
                    assert(self.timer.log() =~= old(self).timer.log() + protocol_waits().take(0));
                }
                return Err(SpiError::Pin(f));
            },
        }
        self.timer.delay_us(50);
        let _b0 = match self.spi.transfer_byte(addr) {
            Ok(b) => b,
            Err(f) => {
                proof {
                    assert(self.spi.sent() =~= old(self).spi.sent() + frame(addr, data).take(1));
                    assert(self.cs.writes() =~= old(self).cs.writes() + seq![false]);
                    assert(self.timer.log() =~= old(self).timer.log() + protocol_waits().take(1));
                }
                return Err(SpiError::Spi(f));
            },
        };
        self.timer.delay_us(40);
        let b1 = match self.spi.transfer_byte(data) {
            Ok(b) => b,
            Err(f) => {
                proof {
                    assert(self.spi.sent() =~= old(self).spi.sent() + frame(addr, data).take(2));
                    assert(self.spi.future() =~= bus_plan.skip(2));
                    assert(self.cs.writes() =~= old(self).cs.writes() + seq![false]);
                    assert(self.timer.log() =~= old(self).timer.log() + protocol_waits().take(2));
                }
                return Err(SpiError::Spi(f));
            },
        };
        self.timer.delay_us(20);
        let b2 = match self.spi.transfer_byte(0) {
            Ok(b) => b,
            Err(f) => {
                proof {
                    assert(self.spi.sent() =~= old(self).spi.sent() + frame(addr, data).take(3));
                    assert(self.spi.future() =~= bus_plan.skip(3));
                    assert(self.cs.writes() =~= old(self).cs.writes() + seq![false]);
                    assert(self.timer.log() =~= old(self).timer.log() + protocol_waits().take(3));
                }
                return Err(SpiError::Spi(f));
            },
        };
        self.timer.delay_us(10);
        proof {
            assert(self.spi.sent() =~= old(self).spi.sent() + frame(addr, data).take(3));
            assert(self.spi.future() =~= bus_plan.skip(3));
            assert(self.timer.log() =~= old(self).timer.log() + protocol_waits().take(4));
        }
        match self.cs.set_high() {
            Ok(_) => (),
            Err(f) => {
                proof {
                    assert(self.cs.writes() =~= old(self).cs.writes() + seq![false, true]);
                    assert(self.cs.future() =~= cs_plan.skip(2));
                }
                return Err(SpiError::Pin(f));
            },
        }
        proof {
            assert(self.cs.writes() =~= old(self).cs.writes() + seq![false, true]);
            assert(self.cs.future() =~= cs_plan.skip(2));
        }
        let reply: [u8; 2] = [b1, b2];
        proof {
            assert(reply@ =~= seq![b1, b2]);
        }
        Ok(reply)
    }

    /// Get the firmware version of the device as the pair major, minor.
    pub fn get_version(&mut self) -> (r: Result<[u8; 2], SpiError<SPI::Fault, CS::Fault>>)
        requires
            old(self).cs.future().len() >= 2,
            old(self).spi.future().len() >= 3,
        ensures
            exchange_effect(*old(self), *final(self), 0x04, 0),
            final(self).channels == old(self).channels,
            (match r {
                Ok(v) => exchange_result(old(self).cs.future(), old(self).spi.future()) matches Ok(
                    p,
                ) && v@ == seq![p.0, p.1],
                Err(e) => exchange_result(old(self).cs.future(), old(self).spi.future()) == Err::<(u8, u8), SpiError<SPI::Fault, CS::Fault>>(e),
            }),
    {
        self.full_duplex(0x04, 0)
    }

    /// Jump to the bootloader of the device's microcontroller.  The
    /// response is ignored; afterwards the microcontroller leaves normal
    /// command service until it is re-flashed or reset.
    pub fn enter_bootloader(&mut self) -> (r: Result<(), SpiError<SPI::Fault, CS::Fault>>)
        requires
            old(self).cs.future().len() >= 2,
            old(self).spi.future().len() >= 3,
        ensures
            exchange_effect(*old(self), *final(self), 0x05, 0),
            final(self).channels == old(self).channels,
            (match r {
                Ok(u) => exchange_result(old(self).cs.future(), old(self).spi.future()) is Ok,
                Err(e) => exchange_result(old(self).cs.future(), old(self).spi.future()) == Err::<(u8, u8), SpiError<SPI::Fault, CS::Fault>>(e),
            }),
    {
        match self.full_duplex(0x05, 0) {
            Ok(_) => Ok(()),
            Err(e) => Err(e),
        }
    }

    /// Get whether the device carries CAN transceiver hardware: the first
    /// response byte is 1 exactly when it does.
    pub fn get_can_hardware(&mut self) -> (r: Result<bool, SpiError<SPI::Fault, CS::Fault>>)
        requires
            old(self).cs.future().len() >= 2,
            old(self).spi.future().len() >= 3,
        ensures
            exchange_effect(*old(self), *final(self), 0x06, 0),
            final(self).channels == old(self).channels,
            (match r {
                Ok(can) => exchange_result(old(self).cs.future(), old(self).spi.future()) matches
                    Ok(p) && can == (p.0 == 1),
                Err(e) => exchange_result(old(self).cs.future(), old(self).spi.future()) == Err::<(u8, u8), SpiError<SPI::Fault, CS::Fault>>(e),
            }),
    {
        match self.full_duplex(0x06, 0) {
            Ok(v) => Ok(v[0] == 1),
            Err(e) => Err(e),
        }
    }

    /// Toggle the EEPROM write-protect line on the device.  The response
    /// is ignored.
    pub fn toggle_eeprom(&mut self) -> (r: Result<(), SpiError<SPI::Fault, CS::Fault>>)
        requires
            old(self).cs.future().len() >= 2,
            old(self).spi.future().len() >= 3,
        ensures
            exchange_effect(*old(self), *final(self), 0x03, 0),
            final(self).channels == old(self).channels,
            (match r {
                Ok(u) => exchange_result(old(self).cs.future(), old(self).spi.future()) is Ok,
                Err(e) => exchange_result(old(self).cs.future(), old(self).spi.future()) == Err::<(u8, u8), SpiError<SPI::Fault, CS::Fault>>(e),
            }),
    {
        match self.full_duplex(0x03, 0) {
            Ok(_) => Ok(()),
            Err(e) => Err(e),
        }
    }

    /// Enable an ADC channel: set its bit in the locally held mask — bits
    /// are only ever added — and transmit the whole updated mask.  A
    /// channel above [`LAST_CHANNEL`] is rejected before any hardware
    /// access, with no side effect at all.
    pub fn set_channel(&mut self, ch: u8) -> (r: Result<(), SpiError<SPI::Fault, CS::Fault>>)
        requires
            ch <= LAST_CHANNEL ==> old(self).cs.future().len() >= 2 && old(
                self,
            ).spi.future().len() >= 3,
        ensures
            ch > LAST_CHANNEL ==> r == Err::<(), SpiError<SPI::Fault, CS::Fault>>(
                SpiError::BadChannel,
            ) && *final(self) == *old(self),
            ch <= LAST_CHANNEL ==> {
                &&& final(self).channels == (old(self).channels | (1u8 << ch))
                &&& exchange_effect(
                    *old(self),
                    *final(self),
                    0x01,
                    old(self).channels | (1u8 << ch),
                )
                &&& (match r {
                    Ok(u) => exchange_result(old(self).cs.future(), old(self).spi.future()) is Ok,
                    Err(e) => exchange_result(old(self).cs.future(), old(self).spi.future()) == Err::<
                        (u8, u8),
                        SpiError<SPI::Fault, CS::Fault>,
                    >(e),
                })
            },
    {
        if ch > LAST_CHANNEL {
            return Err(SpiError::BadChannel);
        }
        self.channels = self.channels | (1u8 << ch);
        let mask = self.channels;
        match self.full_duplex(0x01, mask) {
            Ok(_) => Ok(()),
            Err(e) => Err(e),
        }
    }

    /// Get the enabled-channel mask as the microcontroller itself reports
    /// it: the first response byte.
    pub fn get_channels(&mut self) -> (r: Result<u8, SpiError<SPI::Fault, CS::Fault>>)
        requires
            old(self).cs.future().len() >= 2,
            old(self).spi.future().len() >= 3,
        ensures
            exchange_effect(*old(self), *final(self), 0x02, 0),
            final(self).channels == old(self).channels,
            (match r {
                Ok(mask) => exchange_result(old(self).cs.future(), old(self).spi.future()) matches
                    Ok(p) && mask == p.0,
                Err(e) => exchange_result(old(self).cs.future(), old(self).spi.future()) == Err::<(u8, u8), SpiError<SPI::Fault, CS::Fault>>(e),
            }),
    {
        match self.full_duplex(0x02, 0) {
            Ok(v) => Ok(v[0]),
            Err(e) => Err(e),
        }
    }

    /// Read the 16-bit analog value of one channel, assembled big-endian
    /// from the two response bytes.  The channel selects the command byte
    /// by offset.  A channel above [`LAST_CHANNEL`] is rejected before
    /// any hardware access, with no side effect at all.
    pub fn get_reading(&mut self, ch: u8) -> (r: Result<u16, SpiError<SPI::Fault, CS::Fault>>)
        requires
            ch <= LAST_CHANNEL ==> old(self).cs.future().len() >= 2 && old(
                self,
            ).spi.future().len() >= 3,
        ensures
            ch > LAST_CHANNEL ==> r == Err::<u16, SpiError<SPI::Fault, CS::Fault>>(
                SpiError::BadChannel,
            ) && *final(self) == *old(self),
            ch <= LAST_CHANNEL ==> {
                &&& exchange_effect(*old(self), *final(self), (0x10 + ch) as u8, 0)
                &&& final(self).channels == old(self).channels
                &&& (match r {
                    Ok(value) => exchange_result(
                        old(self).cs.future(),
                        old(self).spi.future(),
                    ) matches Ok(p) && value == be_word(p.0, p.1),
                    Err(e) => exchange_result(old(self).cs.future(), old(self).spi.future()) == Err::<
                        (u8, u8),
                        SpiError<SPI::Fault, CS::Fault>,
                    >(e),
                })
            },
    {
        if ch > LAST_CHANNEL {
            return Err(SpiError::BadChannel);
        }
        match self.full_duplex(0x10 + ch, 0) {
            Ok(v) => {
                let value: u16 = (v[0] as u16) * 256 + (v[1] as u16);
                Ok(value)
            },
            Err(e) => Err(e),
        }
    }

    /// Law: whatever the command, an exchange that runs to its end
    /// performs exactly the three framed single-byte transfers, in order
    /// — command byte, payload byte, trailing zero — bracketed between
    /// one chip-select assert and the following deassert attempt, with
    /// the four protocol waits.
    pub proof fn lemma_exchange_framing(pre: Self, post: Self, addr: u8, data: u8)
        requires
            exchange_effect(pre, post, addr, data),
            exchange_runs_to_end(pre.cs.future(), pre.spi.future()),
        ensures
            post.spi.sent() == pre.spi.sent() + seq![addr, data, 0u8],
            post.cs.writes() == pre.cs.writes() + seq![false, true],
            post.timer.log() == pre.timer.log() + seq![50u32, 40u32, 20u32, 10u32],
            post.spi.future() == pre.spi.future().skip(3),
            post.cs.future() == pre.cs.future().skip(2),
    {
        assert(frame(addr, data).take(3) =~= seq![addr, data, 0u8]);
        assert(protocol_waits().take(4) =~= protocol_waits());
    }

    /// Law: when the payload transfer — the second of the three — fails,
    /// that failure is surfaced and chip-select is left asserted: the low
    /// write stays the last chip-select write, the deassert is never
    /// attempted, and only the command and payload bytes were sent.
    pub proof fn lemma_abort_leaves_select_asserted(
        pre: Self,
        post: Self,
        addr: u8,
        data: u8,
        f: SPI::Fault,
    )
        requires
            exchange_effect(pre, post, addr, data),
            pre.cs.future()[0] is None,
            pre.spi.future()[0] is Byte,
            pre.spi.future()[1] == XferReply::<SPI::Fault>::Fault(f),
        ensures
            exchange_result(pre.cs.future(), pre.spi.future()) == Err::<
                (u8, u8),
                SpiError<SPI::Fault, CS::Fault>,
            >(SpiError::Spi(f)),
            post.cs.writes() == pre.cs.writes().push(false),
            post.spi.sent() == pre.spi.sent() + seq![addr, data],
            post.timer.log() == pre.timer.log() + seq![50u32, 40u32],
    {
        assert(frame(addr, data).take(2) =~= seq![addr, data]);
        assert(protocol_waits().take(2) =~= seq![50u32, 40u32]);
        assert(pre.cs.writes() + seq![false] =~= pre.cs.writes().push(false));
    }
}

} // verus!
