use vstd::prelude::*;

verus! {

/// Permission flags attached to one mapped page: readable, writable,
/// executable, user-accessible.
#[derive(Clone, Copy, Debug, PartialEq, Eq, Structural)]
pub struct MapPermission {
    pub r: bool,
    pub w: bool,
    pub x: bool,
    pub u: bool,
}

/// A raw syscall-level `port` mask is valid when it sets at least one of the
/// low three bits and nothing above them.
pub open spec fn port_is_valid(port: usize) -> bool {
    port & 0x7 == port && port != 0
}

/// The permission set a `port` mask denotes: R is bit 0, W bit 1, X bit 2,
/// and every mapping made on a task's behalf carries the user flag.
pub open spec fn perm_of_port(port: usize) -> MapPermission {
    MapPermission {
        r: port & 0x1 != 0,
        w: port & 0x2 != 0,
        x: port & 0x4 != 0,
        u: true,
    }
}

impl MapPermission {
    /// Converts the syscall-level 3-bit mask into page-table flags. The mask
    /// and the flag set are distinct types; this is the one conversion
    /// between them.
    pub fn from_port(port: usize) -> (p: MapPermission)
        ensures
            p == perm_of_port(port),
    {
        MapPermission {
            r: port & 0x1 != 0,
            w: port & 0x2 != 0,
            x: port & 0x4 != 0,
            u: true,
        }
    }

    /// Checks that a mask names at least one permission and no unknown bits.
    pub fn port_valid(port: usize) -> (b: bool)
        ensures
            b == port_is_valid(port),
    {
        port & 0x7 == port && port != 0
    }
}

} // verus!
