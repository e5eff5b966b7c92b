//! Scripted simulators for every hardware capability.
//!
//! Each simulator holds the outcomes it will produce as a plain vector and
//! records what the driver asks of it, so a test can drive a whole
//! exchange deterministically and then inspect the recorded traffic.  None
//! of them touches real hardware and none of them actually sleeps.

use vstd::prelude::*;

use crate::hw::ByteTransfer;
use crate::hw::DelayMicros;
use crate::hw::DelayMillis;
use crate::hw::InputLine;
use crate::hw::LineRead;
use crate::hw::OutputLine;
use crate::hw::XferReply;

verus! {

/// The fault value every simulator produces when scripted to fail.
#[derive(Clone, Copy, Debug, PartialEq, Eq)]
pub struct SimFault;

/// A scripted digital input line.
pub struct SimInputLine {
    /// The scripted outcomes, consumed front to back.
    pub script: Vec<LineRead<SimFault>>,
    /// How many outcomes have been consumed.
    pub pos: usize,
}

impl SimInputLine {
    /// Create a line that will produce the outcomes of `script`, in order.
    pub fn new(script: Vec<LineRead<SimFault>>) -> (r: Self)
        ensures
            r.future() == script@,
    {
        let r = SimInputLine { script, pos: 0 };
        proof {
            assert(r.future() =~= r.script@);
        }
        r
    }
}

impl InputLine for SimInputLine {
    type Fault = SimFault;

    open spec fn future(&self) -> Seq<LineRead<SimFault>> {
        if self.pos <= self.script@.len() {
            self.script@.skip(self.pos as int)
        } else {
            Seq::empty()
        }
    }

    fn is_high(&mut self) -> (r: Result<bool, SimFault>) {
        let limit: usize = self.script.len();
        proof {
            assert(self.pos < limit);
        }
        let item = self.script[self.pos];
        self.pos = self.pos + 1;
        proof {
            assert(self.future() =~= old(self).future().skip(1));
            assert(old(self).future()[0] == item);
        }
        match item {
            LineRead::Level(level) => Ok(level),
            LineRead::Fault(f) => Err(f),
        }
    }
}

/// A scripted digital output line that records the levels written to it.
pub struct SimOutputLine {
    /// The scripted write outcomes, consumed front to back; `None` means
    /// the write succeeds.
    pub script: Vec<Option<SimFault>>,
    /// How many outcomes have been consumed.
    pub pos: usize,
    /// Every level the driver asked for, in order (`true` = high).
    pub written: Vec<bool>,
}

impl SimOutputLine {
    /// Create a line that will produce the outcomes of `script`, in order,
    /// with nothing written yet.
    pub fn new(script: Vec<Option<SimFault>>) -> (r: Self)
        ensures
            r.future() == script@,
            r.writes() == Seq::<bool>::empty(),
    {
        let r = SimOutputLine { script, pos: 0, written: Vec::new() };
        proof {
            assert(r.future() =~= r.script@);
        }
        r
    }
}

impl OutputLine for SimOutputLine {
    type Fault = SimFault;

    open spec fn future(&self) -> Seq<Option<SimFault>> {
        if self.pos <= self.script@.len() {
            self.script@.skip(self.pos as int)
        } else {
            Seq::empty()
        }
    }

    open spec fn writes(&self) -> Seq<bool> {
        self.written@
    }

    fn set_high(&mut self) -> (r: Result<(), SimFault>) {
        let limit: usize = self.script.len();
        proof {
            assert(self.pos < limit);
        }
        let item = self.script[self.pos];
        self.pos = self.pos + 1;
        self.written.push(true);
        proof {
            assert(self.future() =~= old(self).future().skip(1));
            assert(old(self).future()[0] == item);
        }
        match item {
            None => Ok(()),
            Some(f) => Err(f),
        }
    }

    fn set_low(&mut self) -> (r: Result<(), SimFault>) {
        let limit: usize = self.script.len();
        proof {
            assert(self.pos < limit);
        }
        let item = self.script[self.pos];
        self.pos = self.pos + 1;
        self.written.push(false);
        proof {
            assert(self.future() =~= old(self).future().skip(1));
            assert(old(self).future()[0] == item);
        }
        match item {
            None => Ok(()),
            Some(f) => Err(f),
        }
    }
}

/// A scripted full-duplex byte transport that records the bytes sent
/// through it.
pub struct SimTransfer {
    /// The scripted replies, consumed front to back.
    pub script: Vec<XferReply<SimFault>>,
    /// How many replies have been consumed.
    pub pos: usize,
    /// Every byte the driver asked to transmit, in order.
    pub txed: Vec<u8>,
}

impl SimTransfer {
    /// Create a transport that will produce the replies of `script`, in
    /// order, with nothing transmitted yet.
    pub fn new(script: Vec<XferReply<SimFault>>) -> (r: Self)
        ensures
            r.future() == script@,
            r.sent() == Seq::<u8>::empty(),
    {
        let r = SimTransfer { script, pos: 0, txed: Vec::new() };
        proof {
            assert(r.future() =~= r.script@);
        }
        r
    }
}

impl ByteTransfer for SimTransfer {
    type Fault = SimFault;

    open spec fn future(&self) -> Seq<XferReply<SimFault>> {
        if self.pos <= self.script@.len() {
            self.script@.skip(self.pos as int)
        } else {
            Seq::empty()
        }
    }

    open spec fn sent(&self) -> Seq<u8> {
        self.txed@
    }

    fn transfer_byte(&mut self, tx: u8) -> (r: Result<u8, SimFault>) {
        let limit: usize = self.script.len();
        proof {
            assert(self.pos < limit);
        }
        let item = self.script[self.pos];
        self.pos = self.pos + 1;
        self.txed.push(tx);
        proof {
            assert(self.future() =~= old(self).future().skip(1));
            assert(old(self).future()[0] == item);
        }
        match item {
            XferReply::Byte(b) => Ok(b),
            XferReply::Fault(f) => Err(f),
        }
    }
}

/// A millisecond delay source that records the requested delays and
/// returns at once.
pub struct SimDelayMillis {
    /// Every delay requested so far, in milliseconds, in order.
    pub delays: Vec<u32>,
}

impl SimDelayMillis {
    /// Create a delay source with nothing requested yet.
    pub fn new() -> (r: Self)
        ensures
            r.log() == Seq::<u32>::empty(),
    {
        SimDelayMillis { delays: Vec::new() }
    }
}

impl DelayMillis for SimDelayMillis {
    open spec fn log(&self) -> Seq<u32> {
        self.delays@
    }

    fn delay_ms(&mut self, ms: u32) {
        self.delays.push(ms);
    }
}

/// A microsecond delay source that records the requested delays and
/// returns at once.
pub struct SimDelayMicros {
    /// Every delay requested so far, in microseconds, in order.
    pub delays: Vec<u32>,
}

impl SimDelayMicros {
    /// Create a delay source with nothing requested yet.
    pub fn new() -> (r: Self)
        ensures
            r.log() == Seq::<u32>::empty(),
    {
        SimDelayMicros { delays: Vec::new() }
    }
}

impl DelayMicros for SimDelayMicros {
    open spec fn log(&self) -> Seq<u32> {
        self.delays@
    }

    fn delay_us(&mut self, us: u32) {
        self.delays.push(us);
    }
}

} // verus!
