//! Hardware capability traits the drivers are polymorphic over.
//!
//! Each trait models its device with spec functions: a *plan* of the
//! outcomes the device will produce for future calls, and a *log* of what
//! the driver has asked of it so far.  A contract over both lets a caller
//! reason about exactly which outcomes an operation consumes and exactly
//! what it sends, while leaving the outcomes themselves — levels read from
//! a line, bytes answered by the microcontroller, faults — completely free.

use vstd::prelude::*;

verus! {

/// One scripted outcome of reading a digital input line: either a level or
/// a read fault.
#[derive(Clone, Copy, Debug, PartialEq, Eq)]
pub enum LineRead<F> {
    /// The line reads at this level (`true` = high).
    Level(bool),
    /// The read fails at the hardware or OS layer.
    Fault(F),
}

/// One scripted outcome of a single-byte full-duplex transfer: either the
/// byte clocked back by the other side or a transport fault.
#[derive(Clone, Copy, Debug, PartialEq, Eq)]
pub enum XferReply<F> {
    /// The byte received while the driver's byte was transmitted.
    Byte(u8),
    /// The transfer fails at the transport layer.
    Fault(F),
}

/// A digital input line (the shutdown-request line).
pub trait InputLine: Sized {
    /// The fault type of a failed read.
    type Fault;

    /// The outcomes this line will produce for future reads, first next.
    /// Scripted models give this a body; hardware-backed impls leave it at
    /// the default, which promises nothing.
    open spec fn future(&self) -> Seq<LineRead<Self::Fault>> {
        Seq::empty()
    }

    /// Read the line; `Ok(true)` means high.  Consumes the first scripted
    /// outcome.
    fn is_high(&mut self) -> (r: Result<bool, Self::Fault>)
        requires
            old(self).future().len() > 0,
        ensures
            final(self).future() == old(self).future().skip(1),
            (match old(self).future()[0] {
                LineRead::Level(level) => r == Ok::<bool, Self::Fault>(level),
                LineRead::Fault(f) => r == Err::<bool, Self::Fault>(f),
            }),
    ;
}

/// A digital output line (the running indicator, the chip-select line).
pub trait OutputLine: Sized {
    /// The fault type of a failed write.
    type Fault;

    /// The outcomes this line will produce for future writes, first next:
    /// `None` means the write succeeds.  Scripted models give this a body;
    /// hardware-backed impls leave it at the default, which promises
    /// nothing.
    open spec fn future(&self) -> Seq<Option<Self::Fault>> {
        Seq::empty()
    }

    /// The levels the driver has attempted to write so far, in order
    /// (`true` = high).  A faulting write is still recorded: the driver
    /// asked for it.
    open spec fn writes(&self) -> Seq<bool> {
        Seq::empty()
    }

    /// Drive the line high.  Consumes the first scripted outcome.
    fn set_high(&mut self) -> (r: Result<(), Self::Fault>)
        requires
            old(self).future().len() > 0,
        ensures
            final(self).future() == old(self).future().skip(1),
            final(self).writes() == old(self).writes().push(true),
            (match old(self).future()[0] {
                None => r == Ok::<(), Self::Fault>(()),
                Some(f) => r == Err::<(), Self::Fault>(f),
            }),
    ;

    /// Drive the line low.  Consumes the first scripted outcome.
    fn set_low(&mut self) -> (r: Result<(), Self::Fault>)
        requires
            old(self).future().len() > 0,
        ensures
            final(self).future() == old(self).future().skip(1),
            final(self).writes() == old(self).writes().push(false),
            (match old(self).future()[0] {
                None => r == Ok::<(), Self::Fault>(()),
                Some(f) => r == Err::<(), Self::Fault>(f),
            }),
    ;
}

/// A blocking millisecond-granularity delay source.
pub trait DelayMillis: Sized {
    /// The delays requested so far, in milliseconds, in order.
    open spec fn log(&self) -> Seq<u32> {
        Seq::empty()
    }

    /// Block for `ms` milliseconds.
    fn delay_ms(&mut self, ms: u32)
        ensures
            final(self).log() == old(self).log().push(ms),
    ;
}

/// A blocking microsecond-granularity delay source.
pub trait DelayMicros: Sized {
    /// The delays requested so far, in microseconds, in order.
    open spec fn log(&self) -> Seq<u32> {
        Seq::empty()
    }

    /// Block for `us` microseconds.
    fn delay_us(&mut self, us: u32)
        ensures
            final(self).log() == old(self).log().push(us),
    ;
}

/// A full-duplex byte transport with software-driven framing: the driver
/// clocks one byte out and one byte in per call.
pub trait ByteTransfer: Sized {
    /// The fault type of a failed transfer.
    type Fault;

    /// The replies this transport will produce for future transfers, first
    /// next.  Scripted models give this a body; hardware-backed impls
    /// leave it at the default, which promises nothing.
    open spec fn future(&self) -> Seq<XferReply<Self::Fault>> {
        Seq::empty()
    }

    /// The bytes the driver has attempted to transmit so far, in order.  A
    /// faulting transfer is still recorded: the driver asked for it.
    open spec fn sent(&self) -> Seq<u8> {
        Seq::empty()
    }

    /// Transmit `tx` and return the byte received in exchange.  Consumes
    /// the first scripted reply.
    fn transfer_byte(&mut self, tx: u8) -> (r: Result<u8, Self::Fault>)
        requires
            old(self).future().len() > 0,
        ensures
            final(self).future() == old(self).future().skip(1),
            final(self).sent() == old(self).sent().push(tx),
            (match old(self).future()[0] {
                XferReply::Byte(b) => r == Ok::<u8, Self::Fault>(b),
                XferReply::Fault(f) => r == Err::<u8, Self::Fault>(f),
            }),
    ;
}

} // verus!
