//! The devices of the Coolrunner-II family.
use vstd::prelude::*;

verus! {

/// A Coolrunner-II device, by its number of macrocells (and the "A"
/// revisions of the two smallest).
#[derive(Copy, Clone, Eq, PartialEq, Hash, Debug, Structural)]
pub enum XC2Device {
    XC2C32,
    XC2C32A,
    XC2C64,
    XC2C64A,
    XC2C128,
    XC2C256,
    XC2C384,
    XC2C512,
}

} // verus!
