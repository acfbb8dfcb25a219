//! Opening hush at login through a per-user LaunchAgent.
//!
//! The agent runs `/usr/bin/open <Hush.app>` rather than the binary, so
//! the bundle's identity is what the system attributes the launch to.
//! `KeepAlive` is false: with it on, the app relaunched every time the
//! user quit it. Writing the file and talking to `launchctl` is the
//! caller's work.

use vstd::prelude::*;

use crate::numbers::{decimal_spec, parse_bounded, parse_unsigned, to_decimal};
use crate::paths::{join_path, join_spec};
use crate::text::{push_str, trim, trim_spec};

verus! {

broadcast use vstd::string::group_string_axioms;

/// The agent's label (and the bundle identifier).
pub const LABEL: &'static str = "com.djmunro.hush";

/// The user id assumed when `id -u` gives nothing readable.
pub const FALLBACK_UID: u32 = 501;

/// The agent's property list file under the home directory.
pub fn plist_path(home: &str) -> (r: String)
    ensures
        r@ == join_spec(join_spec(home@, "Library/LaunchAgents"@), LABEL@ + ".plist"@),
{
    proof {
        reveal_strlit("Library/LaunchAgents");
        reveal_strlit("com.djmunro.hush");
    }
    let dir = join_path(home, "Library/LaunchAgents");
    let mut name = String::new();
    push_str(&mut name, LABEL);
    push_str(&mut name, ".plist");
    join_path(dir.as_str(), name.as_str())
}

/// The text of the property list before the bundle path.
pub open spec fn plist_head() -> Seq<char> {
    "<?xml version=\"1.0\" encoding=\"UTF-8\"?>\n<!DOCTYPE plist PUBLIC \"-//Apple//DTD PLIST 1.0//EN\" \"http://www.apple.com/DTDs/PropertyList-1.0.dtd\">\n<plist version=\"1.0\">\n<dict>\n    <key>Label</key>\n    <string>"@
        + LABEL@
        + "</string>\n    <key>ProgramArguments</key>\n    <array>\n        <string>/usr/bin/open</string>\n        <string>"@
}

/// The text of the property list after the bundle path.
pub open spec fn plist_tail() -> Seq<char> {
    "</string>\n    </array>\n    <key>RunAtLoad</key>\n    <true/>\n    <key>KeepAlive</key>\n    <false/>\n</dict>\n</plist>\n"@
}

/// The property list that opens the bundle at `bundle` at login.
pub fn plist_body(bundle: &str) -> (r: String)
    ensures
        r@ == plist_head() + bundle@ + plist_tail(),
{
    let mut s = String::new();
    push_str(
        &mut s,
        "<?xml version=\"1.0\" encoding=\"UTF-8\"?>\n<!DOCTYPE plist PUBLIC \"-//Apple//DTD PLIST 1.0//EN\" \"http://www.apple.com/DTDs/PropertyList-1.0.dtd\">\n<plist version=\"1.0\">\n<dict>\n    <key>Label</key>\n    <string>",
    );
    push_str(&mut s, LABEL);
    push_str(
        &mut s,
        "</string>\n    <key>ProgramArguments</key>\n    <array>\n        <string>/usr/bin/open</string>\n        <string>",
    );
    push_str(&mut s, bundle);
    push_str(
        &mut s,
        "</string>\n    </array>\n    <key>RunAtLoad</key>\n    <true/>\n    <key>KeepAlive</key>\n    <false/>\n</dict>\n</plist>\n",
    );
    s
}

/// The user's id from the output of `id -u`: its trimmed text as a
/// number, or 501 when that does not read as one.
pub open spec fn uid_spec(out: Seq<char>) -> u32 {
    match parse_unsigned(trim_spec(out), u32::MAX as int) {
        Some(v) => v as u32,
        None => FALLBACK_UID,
    }
}

/// The user's id from the output of `id -u`.
pub fn uid_from_output(out: &str) -> (r: u32)
    ensures
        r == uid_spec(out@),
{
    let t = trim(out);
    match parse_bounded(t.as_str(), 0xFFFF_FFFF) {
        Some(v) => v as u32,
        None => FALLBACK_UID,
    }
}

/// The launchd domain of the user's GUI session.
pub fn launchd_domain(uid: u32) -> (r: String)
    ensures
        r@ == "gui/"@ + decimal_spec(uid as nat),
{
    let mut s = String::new();
    push_str(&mut s, "gui/");
    let n = to_decimal(uid as u64);
    push_str(&mut s, n.as_str());
    s
}

/// The agent's service target in that domain.
pub fn launchd_target(uid: u32) -> (r: String)
    ensures
        r@ == "gui/"@ + decimal_spec(uid as nat) + "/"@ + LABEL@,
{
    let mut s = launchd_domain(uid);
    push_str(&mut s, "/");
    push_str(&mut s, LABEL);
    s
}

} // verus!
