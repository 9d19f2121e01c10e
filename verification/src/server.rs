//! The server configuration: the address the accept loop binds.  The
//! loop itself is socket input/output and lives with the process code
//! that drives the library.
use vstd::prelude::*;

verus! {

/// A server bound to one listening address.
pub struct Server<'a> {
    pub socket_addr: &'a str,
}

impl<'a> Server<'a> {
    pub fn new(socket_addr: &'a str) -> (r: Server<'a>)
        ensures
            r.socket_addr@ == socket_addr@,
    {
        Server { socket_addr }
    }
}
} // verus!
