//! Start at login, on both sides.  The Mac writes a LaunchAgent property
//! list; the PC installs an elevated scheduled task.  This module holds what
//! goes into them and where; writing files and running `schtasks` is the
//! application's job.

use vstd::prelude::*;

use crate::text::{chars_of, extend_chars, string_from_chars};

verus! {

/// The LaunchAgent's label.
pub open spec fn label() -> Seq<char> {
    "com.keyboard-it.keyboard-it"@
}

/// The part of the property list before the executable's path.
pub open spec fn plist_head() -> Seq<char> {
    "<?xml version=\"1.0\" encoding=\"UTF-8\"?>\n<!DOCTYPE plist PUBLIC \"-//Apple//DTD PLIST 1.0//EN\" \"http://www.apple.com/DTDs/PropertyList-1.0.dtd\">\n<plist version=\"1.0\">\n<dict>\n\t<key>Label</key>\n\t<string>com.keyboard-it.keyboard-it</string>\n\t<key>ProgramArguments</key>\n\t<array>\n\t\t<string>"@
}

/// The part of the property list after the executable's path.
pub open spec fn plist_tail() -> Seq<char> {
    "</string>\n\t</array>\n\t<key>RunAtLoad</key>\n\t<true/>\n\t<key>ProcessType</key>\n\t<string>Interactive</string>\n\t<key>LimitLoadToSessionType</key>\n\t<string>Aqua</string>\n</dict>\n</plist>\n"@
}

/// Where the LaunchAgent goes: `~/Library/LaunchAgents/<label>.plist`,
/// joined the way paths join (no second separator after a home ending in
/// one, none before a relative part of an empty home).  `None` when the home
/// directory is unknown.
pub open spec fn plist_path_spec(home: Seq<char>) -> Seq<char> {
    let sep: Seq<char> = if home.len() > 0 && home.last() != '/' { "/"@ } else { Seq::empty() };
    home + sep + "Library/LaunchAgents/"@ + label() + ".plist"@
}

/// Where the LaunchAgent goes, given the home directory.
pub fn plist_path(home: Option<&str>) -> (p: Option<String>)
    ensures
        p is Some <==> home is Some,
        p matches Some(s) ==> s@ == plist_path_spec(home->0@),
{
    let h = match home {
        Some(h) => h,
        None => return None,
    };
    let mut cs: Vec<char> = chars_of(h);
    let ghost hv = h@;
    let needs_sep = cs.len() > 0 && cs[cs.len() - 1] != '/';
    if needs_sep {
        cs.push('/');
    }
    let ghost sep: Seq<char> = if hv.len() > 0 && hv.last() != '/' { "/"@ } else { Seq::empty() };
    proof {
        reveal_strlit("/");
    }
    assert(cs@ =~= hv + sep);
    extend_chars(&mut cs, "Library/LaunchAgents/");
    extend_chars(&mut cs, "com.keyboard-it.keyboard-it");
    extend_chars(&mut cs, ".plist");
    assert(cs@ =~= plist_path_spec(hv));
    Some(string_from_chars(&cs))
}

/// The LaunchAgent: start the executable at login, in the user's session.
pub fn plist_text(exe: &str) -> (s: String)
    ensures
        s@ == plist_head() + exe@ + plist_tail(),
{
    let mut cs: Vec<char> = Vec::new();
    extend_chars(&mut cs, "<?xml version=\"1.0\" encoding=\"UTF-8\"?>\n<!DOCTYPE plist PUBLIC \"-//Apple//DTD PLIST 1.0//EN\" \"http://www.apple.com/DTDs/PropertyList-1.0.dtd\">\n<plist version=\"1.0\">\n<dict>\n\t<key>Label</key>\n\t<string>com.keyboard-it.keyboard-it</string>\n\t<key>ProgramArguments</key>\n\t<array>\n\t\t<string>");
    extend_chars(&mut cs, exe);
    extend_chars(&mut cs, "</string>\n\t</array>\n\t<key>RunAtLoad</key>\n\t<true/>\n\t<key>ProcessType</key>\n\t<string>Interactive</string>\n\t<key>LimitLoadToSessionType</key>\n\t<string>Aqua</string>\n</dict>\n</plist>\n");
    assert(cs@ =~= plist_head() + exe@ + plist_tail());
    string_from_chars(&cs)
}

/// The `schtasks` arguments that install (elevated, at logon, the quoted
/// executable) or remove the task.
pub open spec fn task_params_spec(on: bool, exe: Seq<char>) -> Seq<char> {
    if on {
        "/Create /TN keyboard-it /TR \"\\\""@ + exe + "\\\"\" /SC ONLOGON /RL HIGHEST /F"@
    } else {
        "/Delete /TN keyboard-it /F"@
    }
}

/// The `schtasks` arguments for the requested state.
pub fn task_params(on: bool, exe: &str) -> (s: String)
    ensures
        s@ == task_params_spec(on, exe@),
{
    let mut cs: Vec<char> = Vec::new();
    if on {
        extend_chars(&mut cs, "/Create /TN keyboard-it /TR \"\\\"");
        extend_chars(&mut cs, exe);
        extend_chars(&mut cs, "\\\"\" /SC ONLOGON /RL HIGHEST /F");
        assert(cs@ =~= task_params_spec(on, exe@));
    } else {
        extend_chars(&mut cs, "/Delete /TN keyboard-it /F");
        assert(cs@ =~= task_params_spec(on, exe@));
    }
    string_from_chars(&cs)
}

/// Does a toggle have anything to do?  Not when autostart is already in the
/// requested state.
pub fn needs_change(on: bool, enabled: bool) -> (b: bool)
    ensures
        b == (on != enabled),
{
    on != enabled
}

}
