//! The normalized port record: one observed listening/active endpoint, and
//! its mathematical model.

use vstd::prelude::*;

verus! {

/// One observed listening/active endpoint, normalized from tool output.
///
/// `recv_q` and `send_q` are reserved queue-size fields; no current source
/// format populates them, so they are always `0`.
#[derive(Clone, Debug, PartialEq)]
pub struct PortRecord {
    /// Numeric port string; empty when the local-address field had no colon.
    pub port: String,
    /// Address portion of the local-address field; a wildcard token when the
    /// source omits it.
    pub local_ip: String,
    /// Raw remote endpoint as reported; `*:*` when not applicable.
    pub foreign_address: String,
    /// Lower-cased protocol token (`tcp`, `udp`, `tcp6`, ...).
    pub protocol: String,
    /// Connection state for TCP; the literal `stateless` for anything else.
    pub state: String,
    /// Owning process id, when the source reported one.
    pub pid: Option<u32>,
    /// Best-effort owner program name.
    pub process_name: String,
    /// Reserved; always `0`.
    pub recv_q: u64,
    /// Reserved; always `0`.
    pub send_q: u64,
}

/// The model of a `PortRecord`: every text field as a sequence of characters.
#[verifier::ext_equal]
pub struct PortRecordV {
    pub port: Seq<char>,
    pub local_ip: Seq<char>,
    pub foreign_address: Seq<char>,
    pub protocol: Seq<char>,
    pub state: Seq<char>,
    pub pid: Option<u32>,
    pub process_name: Seq<char>,
    pub recv_q: u64,
    pub send_q: u64,
}

impl View for PortRecord {
    type V = PortRecordV;

    open spec fn view(&self) -> PortRecordV {
        PortRecordV {
            port: self.port@,
            local_ip: self.local_ip@,
            foreign_address: self.foreign_address@,
            protocol: self.protocol@,
            state: self.state@,
            pid: self.pid,
            process_name: self.process_name@,
            recv_q: self.recv_q,
            send_q: self.send_q,
        }
    }
}

impl DeepView for PortRecord {
    type V = PortRecordV;

    open spec fn deep_view(&self) -> PortRecordV {
        self.view()
    }
}

} // verus!
