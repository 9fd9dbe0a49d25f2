//! What the command line of the service says about where to listen.
use vstd::prelude::*;
use crate::error::{ChcServiceError, ErrorModel};

verus! {

/// The options of the command line: the interface to bind, and the port.
#[derive(Debug)]
pub struct LocalChcServerCli {
    /// The network interface to use; the local one where none is named.
    pub interface: Option<String>,
    /// The port to bind to; an unused port where none is named.
    pub port: Option<u16>,
}

/// The interface and the port that the service binds.
#[derive(Debug, PartialEq, Eq)]
pub struct BindTarget {
    pub interface: String,
    pub port: u16,
}

/// The interface that is bound where the command line names none.
pub open spec fn default_interface() -> Seq<char> {
    "127.0.0.1"@
}

/// The text of the failure where no port is named and none is free.
pub open spec fn no_port_text() -> Seq<char> {
    "No available port found"@
}

impl LocalChcServerCli {
    /// Settles where to listen. The interface is the named one, or the local
    /// one. The port is the named one, or else `unused_port`, a port that the
    /// caller found free; with neither there is nowhere to listen.
    pub fn try_into(self, unused_port: Option<u16>) -> (r: Result<BindTarget, ChcServiceError>)
        ensures
            match (self.port, unused_port) {
                (None, None) => r matches Err(e) && e@ == ErrorModel::InternalError(
                    no_port_text(),
                ),
                _ => r matches Ok(target) && target.interface@ == (match self.interface {
                    Some(name) => name@,
                    None => default_interface(),
                }) && target.port == (match self.port {
                    Some(port) => port,
                    None => unused_port->Some_0,
                }),
            },
    {
        let port = match self.port {
            Some(port) => port,
            None => match unused_port {
                Some(port) => port,
                None => {
                    return Err(
                        ChcServiceError::InternalError("No available port found".to_string()),
                    );
                },
            },
        };
        let interface = match self.interface {
            Some(name) => name,
            None => "127.0.0.1".to_string(),
        };
        Ok(BindTarget { interface, port })
    }
}

} // verus!
