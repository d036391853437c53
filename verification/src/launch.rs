//! The decisions around a macOS launch: the effective window mode, which
//! terminal's script runs, the scripts that probe the system, and what a
//! finished `osascript` run is reported as.

use vstd::prelude::*;
use crate::plan::{MAC_SHELL_BOOTSTRAP, MacPanePlan, mac_shell_bootstrap};
use crate::quote::{sh_quote, sh_quote_spec};
use crate::script::{
    build_iterm_applescript, build_terminal_applescript, iterm_lines, plan_views, terminal_lines,
};
use crate::text::{
    is_blank, is_blank_spec, join_spec, push_str, replace, replace_char, result_view,
    to_owned_string, trim, trim_ws,
};

verus! {

/// The window mode of a launch: `normal` when blank, trimmed otherwise.
pub open spec fn window_mode_spec(mode: Seq<char>) -> Seq<char> {
    if is_blank_spec(mode) {
        "normal"@
    } else {
        trim_ws(mode)
    }
}

/// The window mode of a launch.
pub fn effective_window_mode(mode: &str) -> (r: String)
    ensures
        r@ == window_mode_spec(mode@),
{
    if is_blank(mode) {
        to_owned_string("normal")
    } else {
        trim(mode)
    }
}

/// The terminal a launch uses, how it lays the panes out, and its script.
pub struct MacLaunchScript {
    pub terminal_name: String,
    pub layout_description: String,
    pub script: String,
}

/// The launch script: iTerm2 split panes when iTerm2 is installed, separate
/// Terminal.app windows otherwise.
pub fn mac_launch_script(plans: &[MacPanePlan], window_mode: &str, preview: bool, use_iterm: bool) -> (r:
    MacLaunchScript)
    requires
        0 < plans.len() < usize::MAX / 8,
    ensures
        use_iterm ==> r.terminal_name@ == "iTerm2"@ && r.layout_description@ == "split panes"@
            && r.script@ == join_spec(iterm_lines(plan_views(plans@), window_mode@, preview), "\n"@),
        !use_iterm ==> r.terminal_name@ == "Terminal.app"@ && r.layout_description@
            == "separate Terminal windows (iTerm2 not installed)"@ && r.script@ == join_spec(
            terminal_lines(plan_views(plans@), window_mode@, preview),
            "\n"@,
        ),
{
    if use_iterm {
        MacLaunchScript {
            terminal_name: to_owned_string("iTerm2"),
            layout_description: to_owned_string("split panes"),
            script: build_iterm_applescript(plans, window_mode, preview),
        }
    } else {
        MacLaunchScript {
            terminal_name: to_owned_string("Terminal.app"),
            layout_description: to_owned_string(
                "separate Terminal windows (iTerm2 not installed)",
            ),
            script: build_terminal_applescript(plans, window_mode, preview),
        }
    }
}

/// What a failed command is reported as: its trimmed error output, or
/// `fallback` when that is empty.
pub open spec fn failure_message_spec(stderr: Seq<char>, fallback: Seq<char>) -> Seq<char> {
    if trim_ws(stderr).len() == 0 {
        fallback
    } else {
        trim_ws(stderr)
    }
}

/// What a failed command is reported as.
pub fn command_failure_message(stderr: &str, fallback: &str) -> (r: String)
    ensures
        r@ == failure_message_spec(stderr@, fallback@),
{
    let trimmed = trim(stderr);
    if trimmed.as_str().is_empty() {
        to_owned_string(fallback)
    } else {
        trimmed
    }
}

/// The outcome of running a launch script: on success, that the launch
/// started followed by its preview; otherwise the error output, or a note
/// that the terminal's AppleScript launch failed.
pub open spec fn mac_launch_outcome_spec(
    terminal_name: Seq<char>,
    preview: Seq<char>,
    success: bool,
    stderr: Seq<char>,
) -> Result<Seq<char>, Seq<char>> {
    if success {
        Ok("macOS "@ + terminal_name + " launch started.\n"@ + preview)
    } else {
        Err(failure_message_spec(stderr, terminal_name + " AppleScript launch failed."@))
    }
}

/// The outcome of running a launch script with `osascript`.
pub fn mac_launch_outcome(terminal_name: &str, preview: &str, success: bool, stderr: &str) -> (r:
    Result<String, String>)
    ensures
        result_view(r) == mac_launch_outcome_spec(terminal_name@, preview@, success, stderr@),
{
    if success {
        let mut message = to_owned_string("macOS ");
        push_str(&mut message, terminal_name);
        push_str(&mut message, " launch started.\n");
        push_str(&mut message, preview);
        Ok(message)
    } else {
        let mut fallback = to_owned_string(terminal_name);
        push_str(&mut fallback, " AppleScript launch failed.");
        Err(command_failure_message(stderr, fallback.as_str()))
    }
}

/// The login-shell script that tells whether a command can be found.
pub open spec fn command_exists_script_spec(command_name: Seq<char>) -> Seq<char> {
    MAC_SHELL_BOOTSTRAP@ + " command -v "@ + sh_quote_spec(command_name)
}

/// The login-shell script that tells whether `command_name` can be found.
pub fn command_exists_script(command_name: &str) -> (r: String)
    ensures
        r@ == command_exists_script_spec(command_name@),
{
    let mut r = to_owned_string(mac_shell_bootstrap());
    push_str(&mut r, " command -v ");
    let quoted = sh_quote(command_name);
    push_str(&mut r, quoted.as_str());
    r
}

/// The AppleScript that asks for an application's id: by bundle id when
/// one is given, by name otherwise, with double quotes removed.
pub open spec fn application_check_script_spec(name: Seq<char>, bundle_id: Option<Seq<char>>) -> Seq<
    char,
> {
    match bundle_id {
        Some(b) => "id of application id \""@ + replace_char(b, '"', Seq::empty()) + "\""@,
        None => "id of application \""@ + replace_char(name, '"', Seq::empty()) + "\""@,
    }
}

/// The AppleScript that tells whether an application is installed.
pub fn application_check_script(name: &str, bundle_id: Option<&str>) -> (r: String)
    ensures
        r@ == application_check_script_spec(
            name@,
            match bundle_id {
                Some(b) => Some(b@),
                None => None,
            },
        ),
{
    proof {
        reveal_strlit("");
    }
    match bundle_id {
        Some(b) => {
            let mut r = to_owned_string("id of application id \"");
            let cleaned = replace(b, '"', "");
            assert(""@ =~= Seq::<char>::empty());
            push_str(&mut r, cleaned.as_str());
            push_str(&mut r, "\"");
            r
        },
        None => {
            let mut r = to_owned_string("id of application \"");
            let cleaned = replace(name, '"', "");
            assert(""@ =~= Seq::<char>::empty());
            push_str(&mut r, cleaned.as_str());
            push_str(&mut r, "\"");
            r
        },
    }
}

} // verus!
