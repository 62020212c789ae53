//! The errors the subcommands report.
use vstd::prelude::*;
use crate::text::{decimal, push_decimal, i32_text, signed_decimal};

verus! {

broadcast use vstd::string::group_string_axioms;

/// Errors of the port monitor.
#[derive(Debug)]
pub enum PortMonitorError {
    PortNotFound(u16),
    PermissionDenied(i32),
    ProcessGone(i32),
    Clipboard(String),
}

/// The message of an error.
pub open spec fn error_text(e: PortMonitorError) -> Seq<char> {
    match e {
        PortMonitorError::PortNotFound(p) => "no process found listening on port "@ + decimal(
            p as nat,
        ),
        PortMonitorError::PermissionDenied(pid) => "permission denied: cannot signal PID "@
            + signed_decimal(pid as int),
        PortMonitorError::ProcessGone(pid) => "process "@ + signed_decimal(pid as int)
            + " no longer exists"@,
        PortMonitorError::Clipboard(m) => "clipboard unavailable: "@ + m@,
    }
}

impl PortMonitorError {
    /// The message of the error.
    pub fn message(&self) -> (r: String)
        ensures
            r@ == error_text(*self),
    {
        match self {
            PortMonitorError::PortNotFound(p) => {
                let mut s = "no process found listening on port ".to_string();
                push_decimal(&mut s, *p as u64);
                s
            },
            PortMonitorError::PermissionDenied(pid) => {
                let mut s = "permission denied: cannot signal PID ".to_string();
                let n = i32_text(*pid);
                s.append(n.as_str());
                s
            },
            PortMonitorError::ProcessGone(pid) => {
                let mut s = "process ".to_string();
                let n = i32_text(*pid);
                s.append(n.as_str());
                s.append(" no longer exists");
                s
            },
            PortMonitorError::Clipboard(m) => {
                let mut s = "clipboard unavailable: ".to_string();
                s.append(m.as_str());
                s
            },
        }
    }
}

} // verus!
