//! Driver library for the companion microcontroller on a chart-plotter
//! add-on board.
//!
//! Two independent drivers are provided, both polymorphic over minimal
//! hardware capability traits so that real pins, transports and clocks can
//! be swapped for scripted simulators:
//!
//! * [`ChartPlotterHatPower`] watches a debounced shutdown-request line and
//!   asserts a running-indicator line.
//! * [`ChartPlotterHatSpi`] speaks the timed three-byte command protocol of
//!   the microcontroller over a full-duplex byte link with a
//!   software-driven chip-select.

pub mod hw;
pub mod power;
pub mod sim;
pub mod spi;

pub use hw::ByteTransfer;
pub use hw::DelayMicros;
pub use hw::DelayMillis;
pub use hw::InputLine;
pub use hw::LineRead;
pub use hw::OutputLine;
pub use hw::XferReply;
pub use power::ChartPlotterHatPower;
pub use sim::SimDelayMicros;
pub use sim::SimDelayMillis;
pub use sim::SimFault;
pub use sim::SimInputLine;
pub use sim::SimOutputLine;
pub use sim::SimTransfer;
pub use spi::ChartPlotterHatSpi;
pub use spi::SpiError;
