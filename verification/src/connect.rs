//! How the bridge connects to a browser daemon, as a machine of states:
//! each state names one thing to find out (is Chrome running, does a daemon
//! answer on a port, did the extension connect), and the answer leads to
//! the next state. The caller does the asking and the waiting.
use vstd::prelude::*;

use crate::browser::{BrowserBridge, PORT_RANGE_END, PORT_RANGE_START};
use crate::error::{message_of, suggestions_of, CliError};
use crate::text::{u128_text, decimal};

verus! {

/// Why connecting gave up.
#[derive(Debug, Clone, Copy, PartialEq, Eq, Structural)]
pub enum FailReason {
    /// Chrome is not running.
    ChromeNotRunning,
    /// Every daemon port is taken.
    AllPortsInUse,
    /// A started daemon did not answer in time.
    NotReady,
    /// A daemon could not be started; the caller holds the error.
    StartFailed,
    /// The daemon on this port runs, but the extension never connected.
    ExtensionNotConnected(u16),
}

/// Where connecting stands.
#[derive(Debug, Clone, Copy, PartialEq, Eq, Structural)]
pub enum ConnectState {
    /// Nothing is known yet.
    Start,
    /// Looking, port by port, for a daemon whose extension is connected.
    FindExtension(u16),
    /// Asking whether a daemon runs on the port the bridge was made for.
    CheckConfigured(u16),
    /// Looking, port by port, for any running daemon.
    FindRunning(u16),
    /// Looking, port by port, for a free port to start a daemon on.
    FindFree(u16),
    /// A daemon is being started on the port.
    Starting(u16),
    /// Giving the extension a few seconds to connect to the daemon.
    FirstWait(u16),
    /// Giving it longer, after waking Chrome up.
    SecondWait(u16),
    /// Connected to the daemon on the port.
    Connected(u16),
    /// Gave up.
    Failed(FailReason),
}

/// What the caller does in a state.
#[derive(Debug, Clone, Copy, PartialEq, Eq, Structural)]
pub enum ConnectAction {
    /// Check whether Chrome runs.
    CheckChrome,
    /// Ask whether a daemon runs on the port with its extension connected.
    ProbeExtension(u16),
    /// Ask whether a daemon runs on the port.
    ProbeDaemon(u16),
    /// Check whether something listens on the port.
    ProbePortInUse(u16),
    /// Start a daemon on the port and wait, up to ten seconds, until it
    /// answers.
    StartDaemon(u16),
    /// Wait up to `seconds` for the extension to connect to the daemon on
    /// `port`; `wake` first opens a Chrome window, and `progress` shows
    /// that it waits.
    WaitForExtension { port: u16, seconds: u64, wake: bool, progress: bool },
    /// Open a page through the daemon on the port.
    Done(u16),
    /// Give up.
    Fail(FailReason),
}

/// What the caller found out.
#[derive(Debug, Clone, Copy, PartialEq, Eq, Structural)]
pub enum ConnectEvent {
    Yes,
    No,
    /// Starting a daemon failed before it could be waited for.
    StartFailed,
}

/// Whether connecting has ended.
pub open spec fn finished(s: ConnectState) -> bool {
    s is Connected || s is Failed
}

/// What to do in a state.
pub open spec fn action_of(s: ConnectState) -> ConnectAction {
    match s {
        ConnectState::Start => ConnectAction::CheckChrome,
        ConnectState::FindExtension(p) => ConnectAction::ProbeExtension(p),
        ConnectState::CheckConfigured(p) => ConnectAction::ProbeDaemon(p),
        ConnectState::FindRunning(p) => ConnectAction::ProbeDaemon(p),
        ConnectState::FindFree(p) => ConnectAction::ProbePortInUse(p),
        ConnectState::Starting(p) => ConnectAction::StartDaemon(p),
        ConnectState::FirstWait(p) => ConnectAction::WaitForExtension { port: p, seconds: 5, wake: false, progress: false },
        ConnectState::SecondWait(p) => ConnectAction::WaitForExtension { port: p, seconds: 25, wake: true, progress: true },
        ConnectState::Connected(p) => ConnectAction::Done(p),
        ConnectState::Failed(r) => ConnectAction::Fail(r),
    }
}

/// Where looking for a daemon goes once no connected extension was found:
/// to the port the bridge was made for, else to any running daemon.
pub open spec fn after_extension_scan(configured: Option<u16>) -> ConnectState {
    match configured {
        Some(c) => ConnectState::CheckConfigured(c),
        None => ConnectState::FindRunning(PORT_RANGE_START),
    }
}

/// The next state, from a state that has not ended and what the caller
/// found out in it. `configured` is the port the bridge was made for.
pub open spec fn next_state(configured: Option<u16>, s: ConnectState, e: ConnectEvent) -> ConnectState {
    let yes = e is Yes;
    match s {
        ConnectState::Start => if yes {
            ConnectState::FindExtension(PORT_RANGE_START)
        } else {
            ConnectState::Failed(FailReason::ChromeNotRunning)
        },
        ConnectState::FindExtension(p) => if yes {
            ConnectState::Connected(p)
        } else if p < PORT_RANGE_END {
            ConnectState::FindExtension((p + 1) as u16)
        } else {
            after_extension_scan(configured)
        },
        ConnectState::CheckConfigured(p) => if yes {
            ConnectState::FirstWait(p)
        } else {
            ConnectState::Starting(p)
        },
        ConnectState::FindRunning(p) => if yes {
            ConnectState::FirstWait(p)
        } else if p < PORT_RANGE_END {
            ConnectState::FindRunning((p + 1) as u16)
        } else {
            ConnectState::FindFree(PORT_RANGE_START)
        },
        ConnectState::FindFree(p) => if !yes {
            ConnectState::Starting(p)
        } else if p < PORT_RANGE_END {
            ConnectState::FindFree((p + 1) as u16)
        } else {
            ConnectState::Failed(FailReason::AllPortsInUse)
        },
        ConnectState::Starting(p) => match e {
            ConnectEvent::Yes => ConnectState::FirstWait(p),
            ConnectEvent::No => ConnectState::Failed(FailReason::NotReady),
            ConnectEvent::StartFailed => ConnectState::Failed(FailReason::StartFailed),
        },
        ConnectState::FirstWait(p) => if yes {
            ConnectState::Connected(p)
        } else {
            ConnectState::SecondWait(p)
        },
        ConnectState::SecondWait(p) => if yes {
            ConnectState::Connected(p)
        } else {
            ConnectState::Failed(FailReason::ExtensionNotConnected(p))
        },
        _ => s,
    }
}

/// The port a daemon was found or started on, once the state says so: the
/// bridge keeps it.
pub open spec fn found_port(s: ConnectState) -> Option<u16> {
    match s {
        ConnectState::FirstWait(p) => Some(p),
        ConnectState::Connected(p) => Some(p),
        _ => None,
    }
}

/// Where connecting starts.
pub fn connect_start() -> (r: ConnectState)
    ensures
        r == ConnectState::Start,
{
    ConnectState::Start
}

/// What to do in a state.
pub fn connect_action(s: ConnectState) -> (r: ConnectAction)
    ensures
        r == action_of(s),
{
    match s {
        ConnectState::Start => ConnectAction::CheckChrome,
        ConnectState::FindExtension(p) => ConnectAction::ProbeExtension(p),
        ConnectState::CheckConfigured(p) => ConnectAction::ProbeDaemon(p),
        ConnectState::FindRunning(p) => ConnectAction::ProbeDaemon(p),
        ConnectState::FindFree(p) => ConnectAction::ProbePortInUse(p),
        ConnectState::Starting(p) => ConnectAction::StartDaemon(p),
        ConnectState::FirstWait(p) => ConnectAction::WaitForExtension { port: p, seconds: 5, wake: false, progress: false },
        ConnectState::SecondWait(p) => ConnectAction::WaitForExtension { port: p, seconds: 25, wake: true, progress: true },
        ConnectState::Connected(p) => ConnectAction::Done(p),
        ConnectState::Failed(r) => ConnectAction::Fail(r),
    }
}

impl BrowserBridge {
    /// Moves connecting on by what the caller found out in state `s`, and
    /// keeps the port of a daemon once one is found or started.
    pub fn connect_step(&mut self, s: ConnectState, e: ConnectEvent) -> (r: ConnectState)
        requires
            !finished(s),
            e is StartFailed ==> s is Starting,
        ensures
            r == next_state(old(self).port, s, e),
            final(self).port == match found_port(r) {
                Some(p) => Some(p),
                None => old(self).port,
            },
    {
        let yes = match e {
            ConnectEvent::Yes => true,
            _ => false,
        };
        let next = match s {
            ConnectState::Start => if yes {
                ConnectState::FindExtension(PORT_RANGE_START)
            } else {
                ConnectState::Failed(FailReason::ChromeNotRunning)
            },
            ConnectState::FindExtension(p) => if yes {
                ConnectState::Connected(p)
            } else if p < PORT_RANGE_END {
                ConnectState::FindExtension(p + 1)
            } else {
                match self.port {
                    Some(c) => ConnectState::CheckConfigured(c),
                    None => ConnectState::FindRunning(PORT_RANGE_START),
                }
            },
            ConnectState::CheckConfigured(p) => if yes {
                ConnectState::FirstWait(p)
            } else {
                ConnectState::Starting(p)
            },
            ConnectState::FindRunning(p) => if yes {
                ConnectState::FirstWait(p)
            } else if p < PORT_RANGE_END {
                ConnectState::FindRunning(p + 1)
            } else {
                ConnectState::FindFree(PORT_RANGE_START)
            },
            ConnectState::FindFree(p) => if !yes {
                ConnectState::Starting(p)
            } else if p < PORT_RANGE_END {
                ConnectState::FindFree(p + 1)
            } else {
                ConnectState::Failed(FailReason::AllPortsInUse)
            },
            ConnectState::Starting(p) => match e {
                ConnectEvent::Yes => ConnectState::FirstWait(p),
                ConnectEvent::No => ConnectState::Failed(FailReason::NotReady),
                ConnectEvent::StartFailed => ConnectState::Failed(FailReason::StartFailed),
            },
            ConnectState::FirstWait(p) => if yes {
                ConnectState::Connected(p)
            } else {
                ConnectState::SecondWait(p)
            },
            ConnectState::SecondWait(p) => if yes {
                ConnectState::Connected(p)
            } else {
                ConnectState::Failed(FailReason::ExtensionNotConnected(p))
            },
            _ => s,
        };
        match next {
            ConnectState::FirstWait(p) => {
                self.port = Some(p);
            },
            ConnectState::Connected(p) => {
                self.port = Some(p);
            },
            _ => {},
        }
        next
    }
}

/// How far a state is from the end: every step brings it closer.
pub open spec fn distance(s: ConnectState) -> int {
    match s {
        ConnectState::Start => 100,
        ConnectState::FindExtension(p) => 90 - (p - PORT_RANGE_START),
        ConnectState::CheckConfigured(_) => 70,
        ConnectState::FindRunning(p) => 69 - (p - PORT_RANGE_START),
        ConnectState::FindFree(p) => 49 - (p - PORT_RANGE_START),
        ConnectState::Starting(_) => 30,
        ConnectState::FirstWait(_) => 20,
        ConnectState::SecondWait(_) => 10,
        ConnectState::Connected(_) => 0,
        ConnectState::Failed(_) => 0,
    }
}

/// Whether the ports a state scans lie in the daemon range.
pub open spec fn scan_in_range(s: ConnectState) -> bool {
    match s {
        ConnectState::FindExtension(p) => PORT_RANGE_START <= p <= PORT_RANGE_END,
        ConnectState::FindRunning(p) => PORT_RANGE_START <= p <= PORT_RANGE_END,
        ConnectState::FindFree(p) => PORT_RANGE_START <= p <= PORT_RANGE_END,
        _ => true,
    }
}

/// The port a state acts on, if any.
pub open spec fn port_of(s: ConnectState) -> Option<u16> {
    match s {
        ConnectState::FindExtension(p) => Some(p),
        ConnectState::CheckConfigured(p) => Some(p),
        ConnectState::FindRunning(p) => Some(p),
        ConnectState::FindFree(p) => Some(p),
        ConnectState::Starting(p) => Some(p),
        ConnectState::FirstWait(p) => Some(p),
        ConnectState::SecondWait(p) => Some(p),
        ConnectState::Connected(p) => Some(p),
        _ => None,
    }
}

/// Connecting ends: from a state whose scan lies in the range, every step
/// brings it closer to the end (at most a hundred steps), and the next
/// state's scan lies in the range too.
pub proof fn law_connect_ends(configured: Option<u16>, s: ConnectState, e: ConnectEvent)
    requires
        !finished(s),
        scan_in_range(s),
    ensures
        distance(next_state(configured, s, e)) < distance(s),
        0 <= distance(next_state(configured, s, e)),
        scan_in_range(next_state(configured, s, e)),
{
}

/// Every port that connecting acts on is a daemon port of the range or
/// the port the bridge was made for.
pub proof fn law_connect_ports(configured: Option<u16>, s: ConnectState, e: ConnectEvent)
    requires
        !finished(s),
        scan_in_range(s),
        port_of(s) matches Some(p) ==> (PORT_RANGE_START <= p <= PORT_RANGE_END || configured == Some(p)),
    ensures
        port_of(next_state(configured, s, e)) matches Some(q) ==> (PORT_RANGE_START <= q <= PORT_RANGE_END
            || configured == Some(q)),
{
}

/// Connecting succeeds only on the port where the extension was just seen
/// connected.
pub proof fn law_connected_only_with_extension(configured: Option<u16>, s: ConnectState, e: ConnectEvent, p: u16)
    requires
        !finished(s),
        next_state(configured, s, e) == ConnectState::Connected(p),
    ensures
        e is Yes,
        s == ConnectState::FindExtension(p) || s == ConnectState::FirstWait(p) || s
            == ConnectState::SecondWait(p),
{
}

/// The error connecting gives up with, for the reasons the bridge itself
/// words (a failed start is reported with the starter's own error).
pub open spec fn fail_error_fits(reason: FailReason, e: CliError) -> bool {
    match reason {
        FailReason::ChromeNotRunning => e is BrowserConnect && message_of(e) == "Chrome is not running"@
            && suggestions_of(e) == seq![
                "Please open Google Chrome with the OpenCLI extension installed"@,
                "The extension connects to the daemon automatically when Chrome is open"@,
            ],
        FailReason::AllPortsInUse => e is BrowserConnect && message_of(e)
            == "All daemon ports (19825-19834) are in use"@ && suggestions_of(e).len() == 0,
        FailReason::NotReady => e is Timeout && message_of(e) == "Daemon did not become ready within 10s"@
            && suggestions_of(e).len() == 0,
        FailReason::StartFailed => true,
        FailReason::ExtensionNotConnected(p) => e is BrowserConnect && message_of(e)
            == "Chrome extension not connected"@ && suggestions_of(e) == seq![
                "Make sure the OpenCLI Chrome extension is installed and enabled"@,
                "Try opening a new Chrome window manually"@,
                "The daemon is listening on port "@ + decimal(p as nat),
            ],
    }
}

/// The error for giving up; for a failed start the caller reports the
/// starter's own error instead.
pub fn connect_error(reason: FailReason) -> (r: CliError)
    requires
        !(reason is StartFailed),
    ensures
        fail_error_fits(reason, r),
{
    match reason {
        FailReason::ChromeNotRunning => {
            let mut s: Vec<String> = Vec::new();
            s.push(String::from_str("Please open Google Chrome with the OpenCLI extension installed"));
            s.push(String::from_str("The extension connects to the daemon automatically when Chrome is open"));
            assert(crate::error::texts_of(s@) =~= seq![
                "Please open Google Chrome with the OpenCLI extension installed"@,
                "The extension connects to the daemon automatically when Chrome is open"@,
            ]);
            CliError::BrowserConnect { message: String::from_str("Chrome is not running"), suggestions: s }
        },
        FailReason::AllPortsInUse => CliError::browser_connect("All daemon ports (19825-19834) are in use"),
        FailReason::NotReady => CliError::timeout("Daemon did not become ready within 10s"),
        FailReason::StartFailed => CliError::browser_connect("Failed to spawn daemon"),
        FailReason::ExtensionNotConnected(p) => {
            let mut s: Vec<String> = Vec::new();
            s.push(String::from_str("Make sure the OpenCLI Chrome extension is installed and enabled"));
            s.push(String::from_str("Try opening a new Chrome window manually"));
            let mut last = String::from_str("The daemon is listening on port ");
            last.append(u128_text(p as u128).as_str());
            s.push(last);
            assert(crate::error::texts_of(s@) =~= seq![
                "Make sure the OpenCLI Chrome extension is installed and enabled"@,
                "Try opening a new Chrome window manually"@,
                "The daemon is listening on port "@ + decimal(p as nat),
            ]);
            CliError::BrowserConnect { message: String::from_str("Chrome extension not connected"), suggestions: s }
        },
    }
}

} // verus!
