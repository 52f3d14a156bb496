//! The failures the launcher can report.

use vstd::prelude::*;
use vstd::string::*;

verus! {

/// Why an operation could not be carried out. Each variant carries the
/// text shown to the operator.
#[derive(Debug)]
pub enum VpnError {
    /// A manifest, a credentials file or a matching server config is missing.
    NotFound(String),
    /// A manifest row or the client's version banner could not be read.
    Parse(String),
    /// A download failed.
    Network(String),
    /// The file system refused to create, write or change something.
    Io(String),
    /// The VPN client or one of the helper programs could not be run.
    ExternalProcess(String),
}

impl VpnError {
    /// The text carried by the error, as a sequence of characters.
    pub open spec fn text(self) -> Seq<char> {
        match self {
            VpnError::NotFound(m) => m@,
            VpnError::Parse(m) => m@,
            VpnError::Network(m) => m@,
            VpnError::Io(m) => m@,
            VpnError::ExternalProcess(m) => m@,
        }
    }

    /// The text shown to the operator.
    pub fn message(&self) -> (r: String)
        ensures
            r@ == self.text(),
    {
        match self {
            VpnError::NotFound(m) => m.clone(),
            VpnError::Parse(m) => m.clone(),
            VpnError::Network(m) => m.clone(),
            VpnError::Io(m) => m.clone(),
            VpnError::ExternalProcess(m) => m.clone(),
        }
    }
}

} // verus!
