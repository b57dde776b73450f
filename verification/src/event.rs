use vstd::prelude::*;

verus! {

/// Width in bytes of the fixed command-name field.
pub const COMM_LEN: usize = 16;

/// Width in bytes of one encoded record on the wire:
/// four 32-bit fields followed by the command-name bytes.
pub const RECORD_LEN: usize = 32;

/// One observed signal send: the fixed-size record that crosses the
/// kernel/user boundary.
pub struct SignalLog {
    /// Sender process id.
    pub pid: u32,
    /// Sender thread id.
    pub tid: u32,
    /// Target of the signal; negative values carry process-group semantics.
    pub tpid: i32,
    /// Signal number; 0 is an existence probe and never reaches a record.
    pub tsig: u32,
    /// Sender's command name, NUL-padded or truncated to `COMM_LEN` bytes.
    pub comm: Vec<u8>,
}

/// Mathematical image of a record: what the contracts speak of.
#[verifier::ext_equal]
pub ghost struct SignalLogV {
    pub pid: u32,
    pub tid: u32,
    pub tpid: i32,
    pub tsig: u32,
    pub comm: Seq<u8>,
}

impl SignalLogV {
    /// A record is well formed when its command-name field has exactly
    /// `COMM_LEN` bytes; no record is ever partially populated.
    pub open spec fn wf(self) -> bool {
        self.comm.len() == COMM_LEN
    }
}

impl View for SignalLog {
    type V = SignalLogV;

    open spec fn view(&self) -> SignalLogV {
        SignalLogV {
            pid: self.pid,
            tid: self.tid,
            tpid: self.tpid,
            tsig: self.tsig,
            comm: self.comm@,
        }
    }
}

} // verus!
