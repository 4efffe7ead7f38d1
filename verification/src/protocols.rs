//! The transport protocols a channel endpoint can be configured with.

use vstd::prelude::*;

verus! {

/// The transport protocol of one configured channel endpoint: either the
/// connection-oriented stream transport or the datagram transport.
#[derive(Clone, Copy, PartialEq, Eq, Structural, Debug)]
pub enum Protocol {
    TCP,
    UDP,
}

impl Protocol {
    /// The label under which this protocol appears in configuration text.
    pub fn label(&self) -> (r: String)
        ensures
            *self == Protocol::TCP ==> r@ == "TCP"@,
            *self == Protocol::UDP ==> r@ == "UDP"@,
    {
        match self {
            Protocol::TCP => "TCP".to_owned(),
            Protocol::UDP => "UDP".to_owned(),
        }
    }
}

} // verus!
