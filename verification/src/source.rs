//! The bridge-process invocation surface: which arguments select the
//! continuous verbose log read (optionally scoped to one device), the
//! buffer-clear command, and the process-table snapshot.

use vstd::prelude::*;

use crate::text::{clone_string, string_views};

verus! {

/// The arguments of the continuous log read: `-s <device>` when a device
/// serial is configured, then the long-format read of all buffers with
/// dividers printed.
pub open spec fn spec_logcat_args(device: Seq<char>) -> Seq<Seq<char>> {
    let base = seq!["logcat"@, "-D"@, "-v"@, "long"@, "-b"@, "all"@];
    if device.len() == 0 {
        base
    } else {
        seq!["-s"@, device] + base
    }
}

/// The arguments of the process-table snapshot command, whose output lines
/// carry a pid in their 2nd whitespace token and a process name in their
/// 9th.
pub open spec fn spec_ps_args() -> Seq<Seq<char>> {
    seq!["shell"@, "ps"@]
}

/// The arguments of the buffer-clear command.
pub open spec fn spec_clear_args() -> Seq<Seq<char>> {
    seq!["logcat"@, "-c"@]
}

/// The log source read from the device bridge: it remembers which device
/// serial, if any, the read is scoped to.
pub struct ADBSource {
    device: String,
}

impl View for ADBSource {
    type V = Seq<char>;

    closed spec fn view(&self) -> Seq<char> {
        self.device@
    }
}

impl ADBSource {
    /// A source scoped to the given device serial; empty means any device.
    pub fn new(device: String) -> (r: Self)
        ensures
            r@ == device@,
    {
        Self { device }
    }

    /// The bridge arguments of the continuous log read for this source.
    pub fn logcat_args(&self) -> (r: Vec<String>)
        ensures
            string_views(r@) == spec_logcat_args(self@),
    {
        let mut args: Vec<String> = Vec::new();
        if !self.device.as_str().is_empty() {
            args.push("-s".to_owned());
            args.push(clone_string(&self.device));
        }
        args.push("logcat".to_owned());
        args.push("-D".to_owned());
        args.push("-v".to_owned());
        args.push("long".to_owned());
        args.push("-b".to_owned());
        args.push("all".to_owned());
        proof {
            assert(string_views(args@) =~= spec_logcat_args(self@));
        }
        args
    }
}

/// The bridge arguments of the process-table snapshot command.
pub fn ps_args() -> (r: Vec<String>)
    ensures
        string_views(r@) == spec_ps_args(),
{
    let mut args: Vec<String> = Vec::new();
    args.push("shell".to_owned());
    args.push("ps".to_owned());
    proof {
        assert(string_views(args@) =~= spec_ps_args());
    }
    args
}

/// The bridge arguments of the buffer-clear command.
pub fn clear_args() -> (r: Vec<String>)
    ensures
        string_views(r@) == spec_clear_args(),
{
    let mut args: Vec<String> = Vec::new();
    args.push("logcat".to_owned());
    args.push("-c".to_owned());
    proof {
        assert(string_views(args@) =~= spec_clear_args());
    }
    args
}

} // verus!
