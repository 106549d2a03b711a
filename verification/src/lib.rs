//! Reading and writing Xilinx Coolrunner-II bitstreams, together with the
//! bit-pattern and bit-fragment machinery used to describe where each setting
//! lives in the fuse arrays.
use vstd::prelude::*;

pub mod text;
pub mod bitpattern;
pub mod bitfragment;
pub mod pict;
pub mod crbit;
pub mod bits;
pub mod pla;
pub mod device;
pub mod globalbits;
pub mod mc;
pub mod fb;

verus! {

/// The number of inputs from the ZIA interconnect into the AND gate section of each PLA.
/// This is an unchangeable property of the architecture of the CPLD.
pub const INPUTS_PER_ANDTERM: usize = 40;

/// The number of AND gates in each PLA. This is also the number of inputs into each OR gate in the PLA.
/// This is an unchangeable property of the architecture of the CPLD.
pub const ANDTERMS_PER_FB: usize = 56;

/// The number of macrocells in each function block. This is also the number of OR gates in each PLA.
/// This is an unchangeable property of the architecture of the CPLD.
pub const MCS_PER_FB: usize = 16;

/// The number of BUFG sites for clock signals in the device.
/// This is an unchangeable property of the architecture of the CPLD.
pub const NUM_BUFG_CLK: usize = 3;

/// The number of BUFG sites for tristate signals in the device.
/// This is an unchangeable property of the architecture of the CPLD.
pub const NUM_BUFG_GTS: usize = 4;

/// The number of BUFG sites for set/reset signals in the device.
/// This is an unchangeable property of the architecture of the CPLD.
pub const NUM_BUFG_GSR: usize = 1;

} // verus!
