use vstd::prelude::*;

verus! {

/// The target of a scan, held as plain integers: four octets for a version 4
/// address, eight 16-bit segments for a version 6 address. It is shared
/// read-only by every probe of a run; callers that open sockets convert it to
/// their networking types at the boundary.
#[derive(Clone, Copy, Debug, PartialEq, Eq, Structural)]
pub enum IpAddress {
    V4(u8, u8, u8, u8),
    V6(u16, u16, u16, u16, u16, u16, u16, u16),
}

} // verus!
