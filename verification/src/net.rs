use vstd::prelude::*;

verus! {

/// An IP address, held as its number: a 32-bit IPv4 or a 128-bit IPv6 address.
#[derive(Debug, Clone, Copy, PartialEq, Eq, Structural)]
pub enum Ip {
    V4(u32),
    V6(u128),
}

} // verus!
