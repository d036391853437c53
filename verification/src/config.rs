//! The launcher configuration as the front end saves it, and the rules that
//! read a pane's Codex settings, its delivery mode, its profile and its path.

use vstd::prelude::*;
use crate::text::{
    eq_ignore_ascii_case, eq_ignore_ascii_case_spec, has_prefix, is_blank,
    is_blank_spec, lemma_trim_keeps_inner, option_view, result_view, str_eq, strip_prefix,
    to_owned_string, trim, trim_ws,
};

verus! {

/// The most panes one launch may open.
pub const MAX_PANES: usize = 20;

/// One pane of the launcher configuration.
#[derive(Debug)]
pub struct PaneConfig {
    pub enabled: bool,
    pub title: String,
    pub path: String,
    pub profile: String,
    pub startup_command: String,
    pub codex_mode: String,
    pub codex_prompt: String,
    pub codex_template: String,
    pub codex_tool_template: String,
    pub codex_prompt_delivery: String,
}

/// The whole launcher configuration.
#[derive(Debug)]
pub struct LauncherConfig {
    pub window_mode: String,
    pub default_profile: String,
    pub panes: Vec<PaneConfig>,
}

// ---------------------------------------------------------------------------
// Codex settings of a pane
// ---------------------------------------------------------------------------

/// A pane runs Codex when it names a Codex mode, carries a prompt, or asks
/// for direct prompt delivery.
pub open spec fn uses_codex_spec(pane: PaneConfig) -> bool {
    !is_blank_spec(pane.codex_mode@) || !is_blank_spec(pane.codex_prompt@) || trim_ws(
        pane.codex_prompt_delivery@,
    ) == "direct"@
}

/// Whether `pane` runs Codex.
pub fn uses_codex(pane: &PaneConfig) -> (b: bool)
    ensures
        b == uses_codex_spec(*pane),
{
    if !is_blank(pane.codex_mode.as_str()) {
        return true;
    }
    if !is_blank(pane.codex_prompt.as_str()) {
        return true;
    }
    let delivery = trim(pane.codex_prompt_delivery.as_str());
    str_eq(delivery.as_str(), "direct")
}

/// The delivery a pane asks for: `manual` when blank, the trimmed text otherwise.
pub open spec fn requested_delivery(value: Seq<char>) -> Seq<char> {
    if is_blank_spec(value) {
        "manual"@
    } else {
        trim_ws(value)
    }
}

/// The delivery mode: `manual` and `direct` stand, `file` and `auto` become
/// `manual`, anything else is refused.
pub open spec fn normalized_delivery_spec(value: Seq<char>) -> Result<Seq<char>, Seq<char>> {
    let d = requested_delivery(value);
    if d == "manual"@ || d == "direct"@ {
        Ok(d)
    } else if d == "file"@ || d == "auto"@ {
        Ok("manual"@)
    } else {
        Err("Codex prompt delivery must be manual or direct."@)
    }
}

/// The delivery mode of a Codex pane (see `normalized_delivery_spec`).
pub fn normalized_delivery(value: &str) -> (r: Result<String, String>)
    ensures
        result_view(r) == normalized_delivery_spec(value@),
{
    let delivery = if is_blank(value) {
        to_owned_string("manual")
    } else {
        trim(value)
    };
    if str_eq(delivery.as_str(), "manual") || str_eq(delivery.as_str(), "direct") {
        Ok(delivery)
    } else if str_eq(delivery.as_str(), "file") || str_eq(delivery.as_str(), "auto") {
        Ok(to_owned_string("manual"))
    } else {
        Err(to_owned_string("Codex prompt delivery must be manual or direct."))
    }
}

/// Law: a delivery mode that is accepted is `manual` or `direct`.
pub proof fn lemma_normalized_delivery_is_manual_or_direct(value: Seq<char>)
    ensures
        normalized_delivery_spec(value) is Ok ==> normalized_delivery_spec(value)->Ok_0
            == "manual"@ || normalized_delivery_spec(value)->Ok_0 == "direct"@,
{
}

/// The Codex mode a pane asks for: `yolo` when blank, the trimmed text otherwise.
pub open spec fn requested_codex_mode(mode: Seq<char>) -> Seq<char> {
    if is_blank_spec(mode) {
        "yolo"@
    } else {
        trim_ws(mode)
    }
}

/// The command-line flags of a Codex mode; an unknown mode adds none.
pub open spec fn codex_mode_args_spec(mode: Seq<char>) -> Seq<Seq<char>> {
    let m = requested_codex_mode(mode);
    if m == "yolo"@ {
        seq!["--yolo"@]
    } else if m == "dangerous"@ {
        seq!["--dangerously-bypass-approvals-and-sandbox"@]
    } else if m == "full-auto"@ {
        seq!["--full-auto"@]
    } else {
        Seq::empty()
    }
}

/// The command-line flags that `codex` gets for a mode.
pub fn codex_mode_args(mode: &str) -> (r: Vec<&'static str>)
    ensures
        r@.map_values(|a: &str| a@) == codex_mode_args_spec(mode@),
{
    let normalized = if is_blank(mode) {
        to_owned_string("yolo")
    } else {
        trim(mode)
    };
    let r: Vec<&'static str> = if str_eq(normalized.as_str(), "yolo") {
        vec!["--yolo"]
    } else if str_eq(normalized.as_str(), "dangerous") {
        vec!["--dangerously-bypass-approvals-and-sandbox"]
    } else if str_eq(normalized.as_str(), "full-auto") {
        vec!["--full-auto"]
    } else {
        Vec::new()
    };
    assert(r@.map_values(|a: &str| a@) =~= codex_mode_args_spec(mode@));
    r
}

// ---------------------------------------------------------------------------
// Profiles
// ---------------------------------------------------------------------------

/// The profile that macOS panes fall back to: the trimmed default profile,
/// except that an empty one and the Windows profile names (`Windows
/// PowerShell`, `PowerShell`, `Command Prompt`, in any ASCII case) give the
/// terminal's own default, written as the empty string.
pub open spec fn mac_default_profile_spec(default_profile: Seq<char>) -> Seq<char> {
    let v = trim_ws(default_profile);
    if v.len() == 0 || eq_ignore_ascii_case_spec(v, "windows powershell"@)
        || eq_ignore_ascii_case_spec(v, "powershell"@) || eq_ignore_ascii_case_spec(
        v,
        "command prompt"@,
    ) {
        Seq::empty()
    } else {
        v
    }
}

/// The profile that macOS panes without their own profile use.
pub fn mac_default_profile(config: &LauncherConfig) -> (r: String)
    ensures
        r@ == mac_default_profile_spec(config.default_profile@),
{
    let value = trim(config.default_profile.as_str());
    if value.as_str().is_empty() || eq_ignore_ascii_case(value.as_str(), "windows powershell")
        || eq_ignore_ascii_case(value.as_str(), "powershell") || eq_ignore_ascii_case(
        value.as_str(),
        "command prompt",
    ) {
        String::new()
    } else {
        value
    }
}

// ---------------------------------------------------------------------------
// Paths
// ---------------------------------------------------------------------------

/// For a trimmed path written `~/rest`, `$HOME/rest` or `${HOME}/rest`, the `rest`.
pub open spec fn home_relative_rest(t: Seq<char>) -> Option<Seq<char>> {
    if has_prefix(t, "~/"@) {
        Some(t.skip("~/"@.len() as int))
    } else if has_prefix(t, "$HOME/"@) {
        Some(t.skip("$HOME/"@.len() as int))
    } else if has_prefix(t, "${HOME}/"@) {
        Some(t.skip("${HOME}/"@.len() as int))
    } else {
        None
    }
}

/// `base` starts with a backslash (as Windows verbatim and UNC paths do).
pub open spec fn starts_with_backslash(base: Seq<char>) -> bool {
    base.len() > 0 && base[0] == '\\'
}

/// A relative path that every platform appends when joining: it starts with
/// neither `/` nor `\\` and has no `:` in second place (no drive prefix).
pub open spec fn plain_relative_part(rest: Seq<char>) -> bool {
    &&& !(rest.len() > 0 && (rest[0] == '/' || rest[0] == '\\'))
    &&& !(rest.len() > 1 && rest[1] == ':')
}

/// `base` and `rest` joined by `PathBuf::push` for a relative `rest`: `base`,
/// then the platform's separator (`/`, or `\` on Windows) unless `base` is
/// empty or already ends in one, then `rest`. Which of the three shapes
/// comes out depends on the platform.
pub open spec fn joined_shape(r: Seq<char>, base: Seq<char>, rest: Seq<char>) -> bool {
    r == base + rest || r == base + seq!['/'] + rest || r == base + seq!['\\'] + rest
}

/// Calls `Path::join` on `base` and `rest` and returns the joined path as text.
/// `Path::join` extends `base` by `rest` as `PathBuf::push` does: for a plain
/// relative `rest` (see `plain_relative_part`) and a `base` that is no
/// verbatim or UNC path, the result is `base`, possibly a separator, then
/// `rest` (see `joined_shape`); `.` and `..` parts are kept as they are, since
/// only a verbatim base is normalized. Whether the separator is there and
/// which one it is depends on the platform; every other case (an absolute `rest`
/// replaces `base`, by platform rules) is left unsaid.
#[verifier::external_body]
fn join_path(base: &str, rest: &str) -> (r: String)
    ensures
        plain_relative_part(rest@) && !starts_with_backslash(base@) ==> joined_shape(
            r@,
            base@,
            rest@,
        ),
{
    std::path::Path::new(base).join(rest).display().to_string()
}

/// The home directory and the relative rest of a pane path written
/// `~/rest`, `$HOME/rest` or `${HOME}/rest` (trimmed), when the home
/// directory is known.
pub open spec fn launcher_home_parts(path: Seq<char>, home: Option<Seq<char>>) -> Option<
    (Seq<char>, Seq<char>),
> {
    match home {
        Some(h) => match home_relative_rest(trim_ws(path)) {
            Some(r) => Some((h, r)),
            None => None,
        },
        None => None,
    }
}

/// The pair that a home-relative pane path hands to `Path::join`: the home
/// directory and the rest after `~/`, `$HOME/` or `${HOME}/`.
pub fn home_relative_parts(path: &str, home: &Option<String>) -> (r: Option<(String, String)>)
    ensures
        match r {
            Some((h, rest)) => launcher_home_parts(path@, option_view(*home)) == Some(
                (h@, rest@),
            ),
            None => launcher_home_parts(path@, option_view(*home)) is None,
        },
{
    let h = match home {
        Some(h) => h,
        None => {
            return None;
        },
    };
    let trimmed = trim(path);
    if let Some(rest) = strip_prefix(trimmed.as_str(), "~/") {
        return Some((to_owned_string(h.as_str()), rest));
    }
    if let Some(rest) = strip_prefix(trimmed.as_str(), "$HOME/") {
        return Some((to_owned_string(h.as_str()), rest));
    }
    if let Some(rest) = strip_prefix(trimmed.as_str(), "${HOME}/") {
        return Some((to_owned_string(h.as_str()), rest));
    }
    None
}

/// The directory a pane path stands for. `home` is the user's home directory
/// when it is known. A trimmed `~` is the home directory (empty when unknown);
/// `~/rest`, `$HOME/rest` and `${HOME}/rest` with a known home are exactly
/// `Path::join(home, rest)` on the pair of `home_relative_parts`: when `rest`
/// is plain, the home directory, possibly the platform's separator, then
/// `rest`; every other path is the trimmed text.
pub fn resolve_launcher_path(path: &str, home: &Option<String>) -> (r: String)
    ensures
        trim_ws(path@) == "~"@ ==> r@ == match option_view(*home) {
            Some(h) => h,
            None => Seq::empty(),
        },
        trim_ws(path@) != "~"@ && launcher_home_parts(path@, option_view(*home)) is None ==> r@
            == trim_ws(path@),
        match launcher_home_parts(path@, option_view(*home)) {
            Some((h, rest)) => plain_relative_part(rest) && !starts_with_backslash(h)
                ==> joined_shape(r@, h, rest),
            None => true,
        },
{
    let trimmed = trim(path);
    if str_eq(trimmed.as_str(), "~") {
        proof {
            reveal_strlit("~");
            reveal_strlit("~/");
            reveal_strlit("$HOME/");
            reveal_strlit("${HOME}/");
            assert(!has_prefix(trimmed@, "~/"@)) by {
                if has_prefix(trimmed@, "~/"@) {
                    assert(trimmed@.len() >= 2);
                }
            }
            assert(!has_prefix(trimmed@, "$HOME/"@)) by {
                if has_prefix(trimmed@, "$HOME/"@) {
                    assert(trimmed@.len() >= 6);
                }
            }
            assert(!has_prefix(trimmed@, "${HOME}/"@)) by {
                if has_prefix(trimmed@, "${HOME}/"@) {
                    assert(trimmed@.len() >= 8);
                }
            }
        }
        return match home {
            Some(h) => to_owned_string(h.as_str()),
            None => String::new(),
        };
    }
    match home_relative_parts(path, home) {
        Some((h, rest)) => join_path(h.as_str(), rest.as_str()),
        None => trimmed,
    }
}

/// Law: a delivery mode that is accepted is accepted again, unchanged.
pub proof fn lemma_normalized_delivery_idempotent(value: Seq<char>)
    ensures
        normalized_delivery_spec(value) is Ok ==> normalized_delivery_spec(
            normalized_delivery_spec(value)->Ok_0,
        ) == normalized_delivery_spec(value),
{
    if normalized_delivery_spec(value) is Ok {
        let s = normalized_delivery_spec(value)->Ok_0;
        reveal_strlit("manual");
        reveal_strlit("direct");
        lemma_trim_keeps_inner(s);
    }
}

} // verus!
