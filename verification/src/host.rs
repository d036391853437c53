//! Decisions around the host system: where the project and the Windows
//! backend are, which template names are acceptable, what a directory picker
//! or a PowerShell run answered, and the clipboard script on Windows.

use vstd::prelude::*;
use crate::launch::{command_failure_message, failure_message_spec};
use crate::text::{
    is_blank, is_blank_spec, join, join_spec, option_view, push_str, replace, replace_char,
    result_view, str_eq, to_owned_string, trim, trim_ws, chars_of,
};

verus! {

// ---------------------------------------------------------------------------
// Project root
// ---------------------------------------------------------------------------

/// The project root seen from the working directory `cwd`: `cwd` itself when
/// it holds a `src-tauri` directory; its parent when `cwd` is named
/// `src-tauri` (an error when it has none); `cwd` otherwise.
pub open spec fn project_root_spec(
    cwd: Seq<char>,
    has_src_tauri_dir: bool,
    file_name: Option<Seq<char>>,
    parent: Option<Seq<char>>,
) -> Result<Seq<char>, Seq<char>> {
    if has_src_tauri_dir {
        Ok(cwd)
    } else if file_name == Some("src-tauri"@) {
        match parent {
            Some(p) => Ok(p),
            None => Err("Unable to resolve project root from src-tauri."@),
        }
    } else {
        Ok(cwd)
    }
}

/// The project root (see `project_root_spec`), from the working directory,
/// whether it holds a `src-tauri` directory, its last component and its parent.
pub fn project_root_choice(
    cwd: &str,
    has_src_tauri_dir: bool,
    file_name: &Option<String>,
    parent: &Option<String>,
) -> (r: Result<String, String>)
    ensures
        result_view(r) == project_root_spec(
            cwd@,
            has_src_tauri_dir,
            option_view(*file_name),
            option_view(*parent),
        ),
{
    if has_src_tauri_dir {
        return Ok(to_owned_string(cwd));
    }
    let named_src_tauri = match file_name {
        Some(f) => str_eq(f.as_str(), "src-tauri"),
        None => false,
    };
    if named_src_tauri {
        match parent {
            Some(p) => Ok(to_owned_string(p.as_str())),
            None => Err(to_owned_string("Unable to resolve project root from src-tauri.")),
        }
    } else {
        Ok(to_owned_string(cwd))
    }
}

// ---------------------------------------------------------------------------
// Windows backend
// ---------------------------------------------------------------------------

/// The backend path the user asked for: the trimmed text, unless absent or blank.
pub open spec fn backend_request_spec(backend_path: Option<Seq<char>>) -> Option<Seq<char>> {
    match backend_path {
        Some(v) => if is_blank_spec(v) {
            None
        } else {
            Some(trim_ws(v))
        },
        None => None,
    }
}

/// The backend path the user asked for, if any.
pub fn windows_backend_request(backend_path: &Option<String>) -> (r: Option<String>)
    ensures
        option_view(r) == backend_request_spec(option_view(*backend_path)),
{
    match backend_path {
        Some(v) => if is_blank(v.as_str()) {
            None
        } else {
            Some(trim(v.as_str()))
        },
        None => None,
    }
}

/// The Windows backend directory: a requested path when it holds the backend
/// scripts (an error naming it otherwise); without a request, what
/// auto-detection found.
pub open spec fn resolve_backend_spec(
    request: Option<Seq<char>>,
    looks_like_backend: bool,
    detected: Result<Seq<char>, Seq<char>>,
) -> Result<Seq<char>, Seq<char>> {
    match request {
        Some(p) => if looks_like_backend {
            Ok(p)
        } else {
            Err("Windows backend path is invalid: "@ + p)
        },
        None => detected,
    }
}

/// The Windows backend directory (see `resolve_backend_spec`).
/// `looks_like_backend` tells whether the requested path holds the backend
/// scripts; `detected` is the auto-detection's answer, used without a request.
pub fn resolve_windows_backend_path(
    request: &Option<String>,
    looks_like_backend: bool,
    detected: &Result<String, String>,
) -> (r: Result<String, String>)
    ensures
        result_view(r) == resolve_backend_spec(
            option_view(*request),
            looks_like_backend,
            result_view(*detected),
        ),
{
    match request {
        Some(p) => if looks_like_backend {
            Ok(to_owned_string(p.as_str()))
        } else {
            let mut message = to_owned_string("Windows backend path is invalid: ");
            push_str(&mut message, p.as_str());
            Err(message)
        },
        None => match detected {
            Ok(d) => Ok(to_owned_string(d.as_str())),
            Err(e) => Err(to_owned_string(e.as_str())),
        },
    }
}

/// The outcome of a PowerShell run: its output on success; otherwise its
/// error output, or its output when the error output is empty (both trimmed).
pub open spec fn powershell_outcome_spec(success: bool, stdout: Seq<char>, stderr: Seq<char>) -> Result<
    Seq<char>,
    Seq<char>,
> {
    if success {
        Ok(trim_ws(stdout))
    } else {
        Err(failure_message_spec(stderr, trim_ws(stdout)))
    }
}

/// The outcome of a PowerShell run of the backend.
pub fn powershell_outcome(success: bool, stdout: &str, stderr: &str) -> (r: Result<String, String>)
    ensures
        result_view(r) == powershell_outcome_spec(success, stdout@, stderr@),
{
    let out = trim(stdout);
    if success {
        Ok(out)
    } else {
        Err(command_failure_message(stderr, out.as_str()))
    }
}

/// The message of a started Windows launch, followed by the validation output.
pub fn windows_launch_started(validation_output: &str) -> (r: String)
    ensures
        r@ == "Launch started.\n"@ + validation_output@,
{
    let mut r = to_owned_string("Launch started.\n");
    push_str(&mut r, validation_output);
    r
}

// ---------------------------------------------------------------------------
// Templates
// ---------------------------------------------------------------------------

/// A name that is one path component on every platform: not empty, not `.`
/// or `..`, and without `/`, `\` or `:`.
pub open spec fn plain_file_name(name: Seq<char>) -> bool {
    &&& name.len() > 0
    &&& name != seq!['.']
    &&& name != seq!['.', '.']
    &&& !name.contains('/')
    &&& !name.contains('\\')
    &&& !name.contains(':')
}

/// Calls `Path::file_name` on `name`, giving the last component as text when
/// there is one. A plain name (see `plain_file_name`) is its own last
/// component; a name holding `/`, a separator on every platform, never is;
/// the empty name, `.` and `..` have no last component (`Path::file_name`
/// gives `None` for a path that ends in `..` or has no normal component).
/// What the last component is in other cases depends on the platform's
/// separators and prefixes, and is left unsaid.
#[verifier::external_body]
fn path_file_name(name: &str) -> (r: Option<String>)
    ensures
        plain_file_name(name@) ==> option_view(r) == Some(name@),
        name@.len() == 0 || name@ == seq!['.'] || name@ == seq!['.', '.'] ==> r is None,
        name@.contains('/') ==> option_view(r) != Some(name@),
{
    std::path::Path::new(name).file_name().and_then(|f| f.to_str()).map(|f| f.to_string())
}

/// A template name is accepted when it is its own last path component.
pub open spec fn template_name_check_spec(name: Seq<char>, file_name: Option<Seq<char>>) -> Result<
    Seq<char>,
    Seq<char>,
> {
    match file_name {
        None => Err("Template name is invalid."@),
        Some(f) => if f == name {
            Ok(f)
        } else {
            Err("Template name must not contain path separators."@)
        },
    }
}

/// Checks a template name against its last path component `file_name`.
pub fn check_template_name(template_name: &str, file_name: &Option<String>) -> (r: Result<
    String,
    String,
>)
    ensures
        result_view(r) == template_name_check_spec(template_name@, option_view(*file_name)),
{
    match file_name {
        None => Err(to_owned_string("Template name is invalid.")),
        Some(f) => if str_eq(f.as_str(), template_name) {
            Ok(to_owned_string(f.as_str()))
        } else {
            Err(to_owned_string("Template name must not contain path separators."))
        },
    }
}

/// Accepts a template name only when it names a file, without directories:
/// a plain name (see `plain_file_name`) is accepted, a name holding `/` is
/// refused, and so are the empty name, `.` and `..`, as invalid. Other names go by the platform's `Path::file_name`; given its
/// answer, the outcome is `template_name_check_spec`. An accepted name is
/// returned unchanged.
pub fn validate_template_name(template_name: &str) -> (r: Result<String, String>)
    ensures
        plain_file_name(template_name@) ==> r is Ok && r->Ok_0@ == template_name@,
        template_name@.contains('/') ==> r is Err,
        template_name@.len() == 0 || template_name@ == seq!['.'] || template_name@ == seq![
            '.',
            '.',
        ] ==> r is Err && r->Err_0@ == "Template name is invalid."@,
        r is Ok ==> r->Ok_0@ == template_name@,
        r is Err ==> r->Err_0@ == "Template name is invalid."@ || r->Err_0@
            == "Template name must not contain path separators."@,
{
    let file_name = path_file_name(template_name);
    check_template_name(template_name, &file_name)
}

/// The message when no template file was found, listing the places checked.
pub open spec fn template_not_found_spec(name: Seq<char>, checked: Seq<Seq<char>>) -> Seq<char> {
    "Template "@ + name + " was not found. Checked:\n"@ + join_spec(checked, "\n"@)
}

/// The message when no template file was found.
pub fn template_not_found_message(template_name: &str, checked: &Vec<String>) -> (r: String)
    ensures
        r@ == template_not_found_spec(template_name@, checked@.map_values(|c: String| c@)),
{
    let mut r = to_owned_string("Template ");
    push_str(&mut r, template_name);
    push_str(&mut r, " was not found. Checked:\n");
    let list = join(checked, "\n");
    push_str(&mut r, list.as_str());
    r
}

/// Where a template is looked for, in order: the place as it is listed,
/// and whether a file is there (a place that cannot be used is listed by a
/// note and holds no file).
pub struct TemplateCandidate {
    pub checked: String,
    pub exists: bool,
}

/// Where a template is read from: the index of the first place that holds
/// it; otherwise the not-found message listing every place checked.
pub fn search_template(template_name: &str, candidates: &Vec<TemplateCandidate>) -> (r: Result<
    usize,
    String,
>)
    ensures
        match r {
            Ok(i) => i < candidates.len() && candidates@[i as int].exists && forall|j: int|
                0 <= j < i ==> !(#[trigger] candidates@[j].exists),
            Err(e) => (forall|j: int| 0 <= j < candidates.len() ==> !(#[trigger] candidates@[j].exists))
                && e@ == template_not_found_spec(
                template_name@,
                candidates@.map_values(|c: TemplateCandidate| c.checked@),
            ),
        },
{
    let mut i: usize = 0;
    while i < candidates.len()
        invariant
            i <= candidates.len(),
            forall|j: int| 0 <= j < i ==> !(#[trigger] candidates@[j].exists),
        decreases candidates.len() - i,
    {
        if candidates[i].exists {
            return Ok(i);
        }
        i = i + 1;
    }
    let mut checked: Vec<String> = Vec::new();
    let mut k: usize = 0;
    while k < candidates.len()
        invariant
            k <= candidates.len(),
            checked@.map_values(|c: String| c@) == candidates@.take(k as int).map_values(
                |c: TemplateCandidate| c.checked@,
            ),
        decreases candidates.len() - k,
    {
        let ghost before = checked@;
        let item = to_owned_string(candidates[k].checked.as_str());
        checked.push(item);
        assert(checked@.map_values(|c: String| c@) =~= before.map_values(|c: String| c@).push(
            candidates@[k as int].checked@,
        ));
        assert(candidates@.take(k + 1).map_values(|c: TemplateCandidate| c.checked@)
            =~= candidates@.take(k as int).map_values(|c: TemplateCandidate| c.checked@).push(
            candidates@[k as int].checked@,
        ));
        k = k + 1;
    }
    assert(candidates@.take(candidates.len() as int) =~= candidates@);
    Err(template_not_found_message(template_name, &checked))
}

/// The note for the list of checked places when the backend cannot be used.
pub fn backend_fallback_note(error: &str) -> (r: String)
    ensures
        r@ == "Windows backend fallback unavailable: "@ + error@,
{
    let mut r = to_owned_string("Windows backend fallback unavailable: ");
    push_str(&mut r, error);
    r
}

// ---------------------------------------------------------------------------
// Directory selection
// ---------------------------------------------------------------------------

/// A lower-case version of a text, as `str::to_lowercase` gives it.
pub uninterp spec fn lowercase(s: Seq<char>) -> Seq<char>;

/// Calls `str::to_lowercase`. The contract only names the result; the
/// Unicode case mapping is left unsaid.
#[verifier::external_body]
fn to_lowercase(s: &str) -> (r: String)
    ensures
        r@ == lowercase(s@),
{
    s.to_lowercase()
}

/// `p` occurs in `s`.
pub open spec fn contains_text(s: Seq<char>, p: Seq<char>) -> bool {
    exists|i: int| 0 <= i && i + p.len() <= s.len() && #[trigger] s.subrange(i, i + p.len()) == p
}

/// Whether `p` occurs in `s`.
pub fn contains(s: &str, p: &str) -> (r: bool)
    ensures
        r == contains_text(s@, p@),
{
    let vs = chars_of(s);
    let vp = chars_of(p);
    if vp.len() > vs.len() {
        return false;
    }
    if vp.len() == 0 {
        assert(s@.subrange(0, 0 + p@.len() as int) =~= p@);
        return true;
    }
    let mut i: usize = 0;
    while i <= vs.len() - vp.len()
        invariant
            vs@ == s@,
            vp@ == p@,
            1 <= vp.len() <= vs.len(),
            i <= vs.len() - vp.len() + 1,
            forall|j: int| 0 <= j < i ==> #[trigger] vs@.subrange(j, j + vp.len()) != vp@,
        decreases vs.len() + 1 - i,
    {
        let mut k: usize = 0;
        let mut same = true;
        while k < vp.len()
            invariant
                i + vp.len() <= vs.len(),
                k <= vp.len(),
                same ==> forall|m: int| 0 <= m < k ==> vs@[i + m] == vp@[m],
                !same ==> vs@.subrange(i as int, i + vp.len()) != vp@,
            decreases vp.len() - k,
        {
            if vs[i + k] != vp[k] {
                assert(vs@.subrange(i as int, i + vp.len())[k as int] != vp@[k as int]);
                same = false;
            }
            k = k + 1;
        }
        if same {
            assert(vs@.subrange(i as int, i + vp.len()) =~= vp@);
            assert(s@.subrange(i as int, i + p@.len()) == p@);
            return true;
        }
        i = i + 1;
    }
    assert forall|j: int| 0 <= j && j + p@.len() <= s@.len() implies #[trigger] s@.subrange(
        j,
        j + p@.len(),
    ) != p@ by {
        assert(j < i);
    }
    false
}

/// Whether the macOS folder chooser reported that the user cancelled.
pub fn macos_selection_cancelled(stderr: &str) -> (r: bool)
    ensures
        r == contains_text(lowercase(trim_ws(stderr@)), "user canceled"@),
{
    let trimmed = trim(stderr);
    let lower = to_lowercase(trimmed.as_str());
    contains(lower.as_str(), "user canceled")
}

/// What a directory picker answered: on success the trimmed chosen path
/// (none when empty); when cancelled, no path; otherwise its error output,
/// or `fallback` when that is empty.
pub open spec fn directory_selection_spec(
    success: bool,
    cancelled: bool,
    stdout: Seq<char>,
    stderr: Seq<char>,
    fallback: Seq<char>,
) -> Result<Option<Seq<char>>, Seq<char>> {
    if success {
        if trim_ws(stdout).len() == 0 {
            Ok(None)
        } else {
            Ok(Some(trim_ws(stdout)))
        }
    } else if cancelled {
        Ok(None)
    } else {
        Err(failure_message_spec(stderr, fallback))
    }
}

/// What a directory picker answered (see `directory_selection_spec`).
pub fn directory_selection_result(
    success: bool,
    cancelled: bool,
    stdout: &str,
    stderr: &str,
    fallback: &str,
) -> (r: Result<Option<String>, String>)
    ensures
        match r {
            Ok(o) => directory_selection_spec(success, cancelled, stdout@, stderr@, fallback@)
                == Ok::<Option<Seq<char>>, Seq<char>>(option_view(o)),
            Err(e) => directory_selection_spec(success, cancelled, stdout@, stderr@, fallback@)
                == Err::<Option<Seq<char>>, Seq<char>>(e@),
        },
{
    if success {
        let selected = trim(stdout);
        if selected.as_str().is_empty() {
            Ok(None)
        } else {
            Ok(Some(selected))
        }
    } else if cancelled {
        Ok(None)
    } else {
        Err(command_failure_message(stderr, fallback))
    }
}

// ---------------------------------------------------------------------------
// Clipboard on Windows
// ---------------------------------------------------------------------------

/// The PowerShell script that copies the UTF-8 file `path` to the clipboard;
/// single quotes in the path are doubled.
pub open spec fn windows_clipboard_script_spec(path: Seq<char>) -> Seq<char> {
    "$p = '"@ + replace_char(path, '\'', seq!['\'', '\''])
        + "'; $text = [IO.File]::ReadAllText($p, [Text.UTF8Encoding]::new($false)); Set-Clipboard -Value $text"@
}

/// The PowerShell script that copies the file `path` to the clipboard.
pub fn windows_clipboard_script(path: &str) -> (r: String)
    ensures
        r@ == windows_clipboard_script_spec(path@),
{
    let mut r = to_owned_string("$p = '");
    let escaped = replace(path, '\'', "''");
    proof {
        reveal_strlit("''");
        assert("''"@ =~= seq!['\'', '\'']);
    }
    push_str(&mut r, escaped.as_str());
    push_str(
        &mut r,
        "'; $text = [IO.File]::ReadAllText($p, [Text.UTF8Encoding]::new($false)); Set-Clipboard -Value $text",
    );
    r
}

} // verus!
