//! A probe watches two sockets and records which of them can be read.

use vstd::prelude::*;
use crate::ids::SocketId;
use crate::poll::PollRes;

verus! {

/// The probe of two sockets.
#[derive(Debug, PartialEq, Eq, Clone, Copy, Structural)]
pub struct Probe {
    pub left: SocketId,
    pub right: SocketId,
    pub left_readable: bool,
    pub right_readable: bool,
}

impl Probe {
    /// The probe after the socket `id` was reported readable.
    pub open spec fn readable(self, id: SocketId) -> Probe {
        Probe {
            left: self.left,
            right: self.right,
            left_readable: self.left_readable || id == self.left,
            right_readable: self.right_readable || id == self.right,
        }
    }

    /// A probe of two sockets, neither of which is known to be readable.
    pub fn new(left: SocketId, right: SocketId) -> (probe: Probe)
        ensures
            probe == (Probe { left, right, left_readable: false, right_readable: false }),
    {
        Probe { left, right, left_readable: false, right_readable: false }
    }

    /// Records that the socket `id` can be read, if the probe watches it.
    pub fn on_socket_readable(&mut self, id: SocketId)
        ensures
            *final(self) == old(self).readable(id),
    {
        if id == self.left {
            self.left_readable = true;
        }
        if id == self.right {
            self.right_readable = true;
        }
    }

    /// What the probe knows of one of its sockets, and forgets with the
    /// call: whether it can be read. A socket is never reported writable.
    pub fn poll(&mut self, id: SocketId) -> (res: PollRes)
        ensures
            res.send == false,
            res.recv == ((id == old(self).left && old(self).left_readable) || (id == old(
                self,
            ).right && old(self).right_readable)),
            *final(self) == (Probe {
                left: old(self).left,
                right: old(self).right,
                left_readable: old(self).left_readable && id != old(self).left,
                right_readable: old(self).right_readable && id != old(self).right,
            }),
    {
        let mut recv = false;
        if id == self.left {
            recv = recv || self.left_readable;
            self.left_readable = false;
        }
        if id == self.right {
            recv = recv || self.right_readable;
            self.right_readable = false;
        }
        PollRes { recv, send: false }
    }
}

} // verus!
