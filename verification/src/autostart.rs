//! Starting the daemon at login: the launchd agent (macOS) or systemd user
//! unit (elsewhere) that runs it, and where that file lives. Writing the
//! file and asking the service manager are the caller's business.
use vstd::prelude::*;

verus! {

/// The launchd label of the daemon's agent.
pub const LABEL: &'static str = "com.opencli.daemon";

/// Where the launchd agent lives under the home directory.
pub open spec fn plist_path_of(home: Seq<char>) -> Seq<char> {
    home + "/Library/LaunchAgents/com.opencli.daemon.plist"@
}

/// Where the launchd agent lives under `home`.
pub fn plist_path(home: &str) -> (r: String)
    ensures
        r@ == plist_path_of(home@),
{
    let mut s = String::from_str(home);
    s.append("/Library/LaunchAgents/com.opencli.daemon.plist");
    s
}

/// Where the systemd user unit lives under the home directory.
pub open spec fn unit_path_of(home: Seq<char>) -> Seq<char> {
    home + "/.config/systemd/user/opencli-daemon.service"@
}

/// Where the systemd user unit lives under `home`.
pub fn systemd_unit_path(home: &str) -> (r: String)
    ensures
        r@ == unit_path_of(home@),
{
    let mut s = String::from_str(home);
    s.append("/.config/systemd/user/opencli-daemon.service");
    s
}

/// The launchd agent: run `{exe} daemon --addr {addr}` at login, keep it
/// alive, and send its output to `log`.
pub open spec fn plist_of(exe: Seq<char>, addr: Seq<char>, log: Seq<char>) -> Seq<char> {
    "<?xml version=\"1.0\" encoding=\"UTF-8\"?>\n<!DOCTYPE plist PUBLIC \"-//Apple//DTD PLIST 1.0//EN\" \"http://www.apple.com/DTDs/PropertyList-1.0.dtd\">\n<plist version=\"1.0\">\n<dict>\n    <key>Label</key>\n    <string>com.opencli.daemon</string>\n    <key>ProgramArguments</key>\n    <array>\n        <string>"@
        + exe + "</string>\n        <string>daemon</string>\n        <string>--addr</string>\n        <string>"@
        + addr
        + "</string>\n    </array>\n    <key>RunAtLoad</key>\n    <true/>\n    <key>KeepAlive</key>\n    <true/>\n    <key>StandardOutPath</key>\n    <string>"@
        + log + "</string>\n    <key>StandardErrorPath</key>\n    <string>"@ + log
        + "</string>\n</dict>\n</plist>\n"@
}

/// The launchd agent that starts the daemon at login.
pub fn launchd_plist(exe: &str, addr: &str, log: &str) -> (r: String)
    ensures
        r@ == plist_of(exe@, addr@, log@),
{
    let mut s = String::from_str(
        "<?xml version=\"1.0\" encoding=\"UTF-8\"?>\n<!DOCTYPE plist PUBLIC \"-//Apple//DTD PLIST 1.0//EN\" \"http://www.apple.com/DTDs/PropertyList-1.0.dtd\">\n<plist version=\"1.0\">\n<dict>\n    <key>Label</key>\n    <string>com.opencli.daemon</string>\n    <key>ProgramArguments</key>\n    <array>\n        <string>",
    );
    s.append(exe);
    s.append("</string>\n        <string>daemon</string>\n        <string>--addr</string>\n        <string>");
    s.append(addr);
    s.append(
        "</string>\n    </array>\n    <key>RunAtLoad</key>\n    <true/>\n    <key>KeepAlive</key>\n    <true/>\n    <key>StandardOutPath</key>\n    <string>",
    );
    s.append(log);
    s.append("</string>\n    <key>StandardErrorPath</key>\n    <string>");
    s.append(log);
    s.append("</string>\n</dict>\n</plist>\n");
    s
}

/// The systemd user unit: run `{exe} daemon --addr {addr}`, restart it on
/// failure, append its output to `log`, and start it with the user's
/// session.
pub open spec fn unit_of(exe: Seq<char>, addr: Seq<char>, log: Seq<char>) -> Seq<char> {
    "[Unit]\nDescription=opencli daemon\n\n[Service]\nExecStart="@ + exe + " daemon --addr "@ + addr
        + "\nRestart=on-failure\nStandardOutput=append:"@ + log + "\nStandardError=append:"@ + log
        + "\n\n[Install]\nWantedBy=default.target\n"@
}

/// The systemd user unit that starts the daemon with the user's session.
pub fn systemd_unit(exe: &str, addr: &str, log: &str) -> (r: String)
    ensures
        r@ == unit_of(exe@, addr@, log@),
{
    let mut s = String::from_str("[Unit]\nDescription=opencli daemon\n\n[Service]\nExecStart=");
    s.append(exe);
    s.append(" daemon --addr ");
    s.append(addr);
    s.append("\nRestart=on-failure\nStandardOutput=append:");
    s.append(log);
    s.append("\nStandardError=append:");
    s.append(log);
    s.append("\n\n[Install]\nWantedBy=default.target\n");
    s
}

/// Whether autostart is set up, and where.
#[derive(Debug)]
pub struct AutostartStatus {
    /// `launchd` or `systemd --user`.
    pub platform: &'static str,
    /// The agent or unit file.
    pub file_path: String,
    /// Whether the file exists.
    pub installed: bool,
    /// Whether the service manager has it loaded or enabled.
    pub loaded: bool,
}

/// The autostart status on macOS (`launchd`) or elsewhere (`systemd
/// --user`), from what the caller found on disk and asked the service
/// manager.
pub fn autostart_status(macos: bool, home: &str, installed: bool, loaded: bool) -> (r: AutostartStatus)
    ensures
        r.platform@ == (if macos { "launchd"@ } else { "systemd --user"@ }),
        r.file_path@ == (if macos { plist_path_of(home@) } else { unit_path_of(home@) }),
        r.installed == installed,
        r.loaded == loaded,
{
    if macos {
        AutostartStatus { platform: "launchd", file_path: plist_path(home), installed, loaded }
    } else {
        AutostartStatus { platform: "systemd --user", file_path: systemd_unit_path(home), installed, loaded }
    }
}

} // verus!
