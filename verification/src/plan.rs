//! Planning the panes of a macOS launch: which panes open, in which directory,
//! with which profile and which shell command, and what blocks the launch.

use vstd::prelude::*;
use crate::codex::{
    CodexCommandView, RunArgsFile, build_codex_shell_command, codex_command_spec, codex_words,
    merged_prompt_spec, prompt_file_argument,
};
use crate::config::{
    LauncherConfig, MAX_PANES, PaneConfig, mac_default_profile, mac_default_profile_spec,
    normalized_delivery_spec,
    uses_codex, uses_codex_spec,
};
use crate::quote::{sh_quote, sh_quote_spec};
use crate::text::{
    has_prefix, has_suffix, lemma_join_push, lemma_join_starts_with_first, lemma_prefix_of_concat,
    lemma_suffix_of_concat, lemma_suffix_of_suffix, lemma_trim_keeps_inner, decimal, is_blank, is_blank_spec, join, join_spec, push_str, result_view, to_owned_string,
    trim, trim_ws, usize_to_string,
};

verus! {

// ---------------------------------------------------------------------------
// Shell commands of a pane
// ---------------------------------------------------------------------------

/// The shell preamble that makes Homebrew, fnm and nvm tools reachable in a
/// new pane.
pub const MAC_SHELL_BOOTSTRAP: &'static str = r#"export PATH="/opt/homebrew/bin:/opt/homebrew/sbin:/usr/local/bin:$PATH";
if [ -r /etc/zprofile ]; then . /etc/zprofile >/dev/null 2>&1 || true; fi;
if command -v brew >/dev/null 2>&1; then eval "$(brew shellenv)" >/dev/null 2>&1 || true; fi;
if command -v fnm >/dev/null 2>&1; then eval "$(fnm env --use-on-cd)" >/dev/null 2>&1 || true; fi;
if [ -s "$HOME/.nvm/nvm.sh" ]; then . "$HOME/.nvm/nvm.sh" >/dev/null 2>&1 || true; fi;
if command -v nvm >/dev/null 2>&1; then nvm use default >/dev/null 2>&1 || nvm use node >/dev/null 2>&1 || true; fi;"#;

/// The shell preamble of every pane (see `MAC_SHELL_BOOTSTRAP`).
pub fn mac_shell_bootstrap() -> (r: &'static str)
    ensures
        r@ == MAC_SHELL_BOOTSTRAP@,
{
    MAC_SHELL_BOOTSTRAP
}

/// What stays of the pane's login shell after its command: the user's shell.
pub open spec fn login_shell_tail() -> Seq<char> {
    "exec \"${SHELL:-/bin/zsh}\" -l"@
}

/// The full shell script of a pane: the preamble, a `cd` into `path` that
/// stops on failure, a terminal title escape when the title is not blank,
/// the trimmed command when it is not blank, and finally the login shell.
pub open spec fn wrap_shell_command_spec(path: Seq<char>, title: Seq<char>, command: Seq<char>) -> Seq<
    char,
> {
    MAC_SHELL_BOOTSTRAP@ + " cd "@ + sh_quote_spec(path) + " || exit 1; "@ + (if !is_blank_spec(
        title,
    ) {
        "printf '\\033]0;%s\\007' "@ + sh_quote_spec(trim_ws(title)) + "; "@
    } else {
        Seq::empty()
    }) + (if is_blank_spec(command) {
        login_shell_tail()
    } else {
        trim_ws(command) + "; "@ + login_shell_tail()
    })
}

/// Law: every pane script starts with the preamble and a `cd` into the
/// quoted directory that stops on failure; and whenever the command is not
/// blank, whatever the title, the script ends by running the trimmed command
/// and then the login shell; a blank command leaves just the login shell.
pub proof fn lemma_wrap_runs_command_whatever_title(
    path: Seq<char>,
    title: Seq<char>,
    command: Seq<char>,
)
    ensures
        has_prefix(
            wrap_shell_command_spec(path, title, command),
            MAC_SHELL_BOOTSTRAP@ + " cd "@ + sh_quote_spec(path) + " || exit 1; "@,
        ),
        !is_blank_spec(command) ==> has_suffix(
            wrap_shell_command_spec(path, title, command),
            trim_ws(command) + "; "@ + "exec \"${SHELL:-/bin/zsh}\" -l"@,
        ),
        is_blank_spec(command) ==> has_suffix(
            wrap_shell_command_spec(path, title, command),
            "exec \"${SHELL:-/bin/zsh}\" -l"@,
        ),
{
    let head = MAC_SHELL_BOOTSTRAP@ + " cd "@ + sh_quote_spec(path) + " || exit 1; "@;
    let middle = if !is_blank_spec(title) {
        "printf '\\033]0;%s\\007' "@ + sh_quote_spec(trim_ws(title)) + "; "@
    } else {
        Seq::empty()
    };
    let end = if is_blank_spec(command) {
        login_shell_tail()
    } else {
        trim_ws(command) + "; "@ + login_shell_tail()
    };
    let w = wrap_shell_command_spec(path, title, command);
    assert(w =~= head + (middle + end));
    lemma_prefix_of_concat(head, middle + end);
    assert(w =~= (head + middle) + end);
    lemma_suffix_of_concat(head + middle, end);
}

/// The shell script that a pane runs (see `wrap_shell_command_spec`).
pub fn wrap_shell_command(path: &str, title: &str, command: &str) -> (r: String)
    ensures
        r@ == wrap_shell_command_spec(path@, title@, command@),
{
    let mut script = to_owned_string(mac_shell_bootstrap());
    push_str(&mut script, " cd ");
    let quoted_path = sh_quote(path);
    push_str(&mut script, quoted_path.as_str());
    push_str(&mut script, " || exit 1; ");
    let ghost head = script@;
    if !is_blank(title) {
        push_str(&mut script, "printf '\\033]0;%s\\007' ");
        let trimmed_title = trim(title);
        let quoted_title = sh_quote(trimmed_title.as_str());
        push_str(&mut script, quoted_title.as_str());
        push_str(&mut script, "; ");
    }
    let ghost middle = script@;
    if is_blank(command) {
        push_str(&mut script, "exec \"${SHELL:-/bin/zsh}\" -l");
    } else {
        let trimmed_command = trim(command);
        push_str(&mut script, trimmed_command.as_str());
        push_str(&mut script, "; exec \"${SHELL:-/bin/zsh}\" -l");
        proof {
            reveal_strlit("; exec \"${SHELL:-/bin/zsh}\" -l");
            reveal_strlit("; ");
            reveal_strlit("exec \"${SHELL:-/bin/zsh}\" -l");
            assert("; exec \"${SHELL:-/bin/zsh}\" -l"@ =~= "; "@ + login_shell_tail());
        }
    }
    assert(script@ =~= wrap_shell_command_spec(path@, title@, command@));
    script
}

// ---------------------------------------------------------------------------
// Pane plans
// ---------------------------------------------------------------------------

/// A pane of a macOS launch, ready to be opened.
#[derive(Debug)]
pub struct MacPanePlan {
    /// The pane's 1-based position in the configuration.
    pub pane_number: usize,
    pub title: String,
    pub profile: String,
    pub path: String,
    pub shell_command: String,
    pub preview_command: String,
    /// The Codex prompt delivery, for Codex panes.
    pub delivery: Option<String>,
}

/// The mathematical content of a `MacPanePlan`.
#[verifier::ext_equal]
pub struct PlanView {
    pub pane_number: nat,
    pub title: Seq<char>,
    pub profile: Seq<char>,
    pub path: Seq<char>,
    pub shell_command: Seq<char>,
    pub preview_command: Seq<char>,
    pub delivery: Option<Seq<char>>,
}

impl View for MacPanePlan {
    type V = PlanView;

    open spec fn view(&self) -> PlanView {
        PlanView {
            pane_number: self.pane_number as nat,
            title: self.title@,
            profile: self.profile@,
            path: self.path@,
            shell_command: self.shell_command@,
            preview_command: self.preview_command@,
            delivery: match self.delivery {
                Some(d) => Some(d@),
                None => None,
            },
        }
    }
}

/// The command of a plan that a launch runs, or that a preview shows.
pub open spec fn plan_command_spec(plan: PlanView, preview: bool) -> Seq<char> {
    if preview {
        plan.preview_command
    } else {
        plan.shell_command
    }
}

/// The command of `plan` for a preview or for a launch.
pub fn mac_plan_command(plan: &MacPanePlan, preview: bool) -> (r: &str)
    ensures
        r@ == plan_command_spec(plan@, preview),
{
    if preview {
        plan.preview_command.as_str()
    } else {
        plan.shell_command.as_str()
    }
}

/// What the launcher learned outside about one pane before planning: its
/// resolved directory (`resolve_launcher_path`) and whether that is a
/// directory, the texts (or read errors) of its two Codex templates, and
/// where its Codex prompt file would go.
pub struct PaneEnvironment {
    pub path: String,
    pub path_is_dir: bool,
    pub shared_template: Result<String, String>,
    pub tool_template: Result<String, String>,
    pub run_args_file: String,
}

/// What planning one enabled pane gives: a reason to leave it out that the
/// launch reports with the others, an error that stops planning at once, or
/// its plan with the prompt file (path, content) to write and whether it runs Codex.
pub enum PaneOutcome {
    Skipped(Seq<char>),
    Failed(Seq<char>),
    Planned(PlanView, Option<(Seq<char>, Seq<char>)>, bool),
}

/// The message for an enabled pane without a path.
pub open spec fn path_required_message(number: nat) -> Seq<char> {
    "Pane "@ + decimal(number) + " path is required."@
}

/// The message for an enabled pane whose directory does not exist.
pub open spec fn path_missing_message(number: nat, path: Seq<char>) -> Seq<char> {
    "Pane "@ + decimal(number) + " path does not exist: "@ + path
}

/// The plan of pane `index` (0-based). A blank path leaves the pane out; so
/// does a directory that does not exist when existing paths are required.
/// The pane's own profile wins over `default_profile`. A Codex pane runs its
/// Codex command; another pane runs its start-up command, or just its shell.
pub open spec fn pane_outcome(
    pane: PaneConfig,
    index: nat,
    default_profile: Seq<char>,
    preview: bool,
    require_existing_path: bool,
    env: PaneEnvironment,
) -> PaneOutcome {
    let number = index + 1;
    if is_blank_spec(pane.path@) {
        PaneOutcome::Skipped(path_required_message(number))
    } else if require_existing_path && !env.path_is_dir {
        PaneOutcome::Skipped(path_missing_message(number, env.path@))
    } else {
        let profile = if is_blank_spec(pane.profile@) {
            default_profile
        } else {
            trim_ws(pane.profile@)
        };
        let base = PlanView {
            pane_number: number,
            title: trim_ws(pane.title@),
            profile,
            path: env.path@,
            shell_command: Seq::empty(),
            preview_command: Seq::empty(),
            delivery: None,
        };
        if uses_codex_spec(pane) {
            match codex_command_spec(
                pane,
                preview,
                result_view(env.shared_template),
                result_view(env.tool_template),
                env.run_args_file@,
            ) {
                Err(e) => PaneOutcome::Failed(e),
                Ok(c) => PaneOutcome::Planned(
                    PlanView {
                        shell_command: wrap_shell_command_spec(env.path@, pane.title@, c.command),
                        preview_command: wrap_shell_command_spec(
                            env.path@,
                            pane.title@,
                            c.preview_command,
                        ),
                        delivery: Some(c.delivery),
                        ..base
                    },
                    c.prompt_file,
                    true,
                ),
            }
        } else {
            let command = if !is_blank_spec(pane.startup_command@) {
                trim_ws(pane.startup_command@)
            } else {
                Seq::empty()
            };
            PaneOutcome::Planned(
                PlanView {
                    shell_command: wrap_shell_command_spec(env.path@, pane.title@, command),
                    preview_command: wrap_shell_command_spec(env.path@, pane.title@, command),
                    ..base
                },
                None,
                false,
            )
        }
    }
}

/// The number of enabled panes.
pub open spec fn enabled_count(panes: Seq<PaneConfig>) -> nat
    decreases panes.len(),
{
    if panes.len() == 0 {
        0
    } else {
        enabled_count(panes.drop_last()) + if panes.last().enabled {
            1nat
        } else {
            0nat
        }
    }
}

/// The errors known before any pane is planned: no pane enabled, or more
/// than `MAX_PANES` enabled.
pub open spec fn initial_errors(panes: Seq<PaneConfig>) -> Seq<Seq<char>> {
    let n = enabled_count(panes);
    (if n == 0 {
        seq!["Enable at least one pane."@]
    } else {
        Seq::empty()
    }) + (if n > MAX_PANES {
        seq!["Pane count cannot exceed "@ + decimal(MAX_PANES as nat) + "."@]
    } else {
        Seq::empty()
    })
}

/// The state of planning: the plans so far, the errors to report, the prompt
/// files to write (path, content) in order, whether a planned pane runs
/// Codex, and the error that stopped planning, if one did.
#[verifier::ext_equal]
pub struct DraftView {
    pub plans: Seq<PlanView>,
    pub errors: Seq<Seq<char>>,
    pub files: Seq<(Seq<char>, Seq<char>)>,
    pub needs_codex: bool,
    pub failure: Option<Seq<char>>,
}

/// The planning state after the first `j` panes.
pub open spec fn draft_upto(
    config: LauncherConfig,
    preview: bool,
    require_existing_path: bool,
    envs: Seq<PaneEnvironment>,
    j: nat,
) -> DraftView
    decreases j,
{
    let panes = config.panes@;
    if j == 0 {
        DraftView {
            plans: Seq::empty(),
            errors: initial_errors(panes),
            files: Seq::empty(),
            needs_codex: false,
            failure: None,
        }
    } else {
        let d = draft_upto(config, preview, require_existing_path, envs, (j - 1) as nat);
        let i = (j - 1) as nat;
        if d.failure is Some || !panes[i as int].enabled {
            d
        } else {
            match pane_outcome(
                panes[i as int],
                i,
                mac_default_profile_spec(config.default_profile@),
                preview,
                require_existing_path,
                envs[i as int],
            ) {
                PaneOutcome::Skipped(e) => DraftView { errors: d.errors.push(e), ..d },
                PaneOutcome::Failed(e) => DraftView { failure: Some(e), ..d },
                PaneOutcome::Planned(p, f, c) => DraftView {
                    plans: d.plans.push(p),
                    files: match f {
                        Some(w) => d.files.push(w),
                        None => d.files,
                    },
                    needs_codex: d.needs_codex || c,
                    ..d
                },
            }
        }
    }
}

/// The planning state after every pane.
pub open spec fn draft_spec(
    config: LauncherConfig,
    preview: bool,
    require_existing_path: bool,
    envs: Seq<PaneEnvironment>,
) -> DraftView {
    draft_upto(config, preview, require_existing_path, envs, config.panes@.len())
}

/// The result of planning, before the prompt files are written and before
/// the `codex` command is looked for.
pub struct MacPlanDraft {
    pub plans: Vec<MacPanePlan>,
    pub errors: Vec<String>,
    pub files: Vec<RunArgsFile>,
    pub needs_codex: bool,
    pub failure: Option<String>,
}

/// The mathematical content of a draft.
pub open spec fn draft_view(d: MacPlanDraft) -> DraftView {
    DraftView {
        plans: d.plans@.map_values(|p: MacPanePlan| p@),
        errors: d.errors@.map_values(|e: String| e@),
        files: d.files@.map_values(|f: RunArgsFile| (f.path@, f.content@)),
        needs_codex: d.needs_codex,
        failure: match d.failure {
            Some(e) => Some(e@),
            None => None,
        },
    }
}

/// What planning one pane gives.
pub enum PanePlanResult {
    Skipped(String),
    Failed(String),
    Planned(MacPanePlan, Option<RunArgsFile>, bool),
}

/// The mathematical content of a pane's planning result.
pub open spec fn pane_result_view(r: PanePlanResult) -> PaneOutcome {
    match r {
        PanePlanResult::Skipped(e) => PaneOutcome::Skipped(e@),
        PanePlanResult::Failed(e) => PaneOutcome::Failed(e@),
        PanePlanResult::Planned(p, f, c) => PaneOutcome::Planned(
            p@,
            match f {
                Some(w) => Some((w.path@, w.content@)),
                None => None,
            },
            c,
        ),
    }
}

/// "Pane {number}{tail}".
fn pane_message(number: usize, tail: &str) -> (r: String)
    ensures
        r@ == "Pane "@ + decimal(number as nat) + tail@,
{
    let mut r = to_owned_string("Pane ");
    let digits = usize_to_string(number);
    push_str(&mut r, digits.as_str());
    push_str(&mut r, tail);
    r
}

/// Plans pane `index` (see `pane_outcome`).
pub fn plan_pane(
    pane: &PaneConfig,
    index: usize,
    default_profile: &String,
    preview: bool,
    require_existing_path: bool,
    env: &PaneEnvironment,
) -> (r: PanePlanResult)
    requires
        index < usize::MAX,
    ensures
        pane_result_view(r) == pane_outcome(
            *pane,
            index as nat,
            default_profile@,
            preview,
            require_existing_path,
            *env,
        ),
{
    let number = index + 1;
    if is_blank(pane.path.as_str()) {
        return PanePlanResult::Skipped(pane_message(number, " path is required."));
    }
    if require_existing_path && !env.path_is_dir {
        let mut message = pane_message(number, " path does not exist: ");
        push_str(&mut message, env.path.as_str());
        return PanePlanResult::Skipped(message);
    }
    let profile = if is_blank(pane.profile.as_str()) {
        to_owned_string(default_profile.as_str())
    } else {
        trim(pane.profile.as_str())
    };
    let title = trim(pane.title.as_str());
    if uses_codex(pane) {
        match build_codex_shell_command(
            pane,
            preview,
            &env.shared_template,
            &env.tool_template,
            env.run_args_file.as_str(),
        ) {
            Err(e) => PanePlanResult::Failed(e),
            Ok(c) => {
                let shell_command = wrap_shell_command(
                    env.path.as_str(),
                    pane.title.as_str(),
                    c.command.as_str(),
                );
                let preview_command = wrap_shell_command(
                    env.path.as_str(),
                    pane.title.as_str(),
                    c.preview_command.as_str(),
                );
                let plan = MacPanePlan {
                    pane_number: number,
                    title,
                    profile,
                    path: to_owned_string(env.path.as_str()),
                    shell_command,
                    preview_command,
                    delivery: Some(c.delivery),
                };
                PanePlanResult::Planned(plan, c.prompt_file, true)
            },
        }
    } else {
        let command = if !is_blank(pane.startup_command.as_str()) {
            trim(pane.startup_command.as_str())
        } else {
            String::new()
        };
        let shell_command = wrap_shell_command(
            env.path.as_str(),
            pane.title.as_str(),
            command.as_str(),
        );
        let preview_command = wrap_shell_command(
            env.path.as_str(),
            pane.title.as_str(),
            command.as_str(),
        );
        let plan = MacPanePlan {
            pane_number: number,
            title,
            profile,
            path: to_owned_string(env.path.as_str()),
            shell_command,
            preview_command,
            delivery: None,
        };
        PanePlanResult::Planned(plan, None, false)
    }
}

/// The number of enabled panes.
pub fn count_enabled(panes: &Vec<PaneConfig>) -> (n: usize)
    ensures
        n as nat == enabled_count(panes@),
{
    let mut n: usize = 0;
    let mut i: usize = 0;
    while i < panes.len()
        invariant
            i <= panes.len(),
            n <= i,
            n as nat == enabled_count(panes@.take(i as int)),
        decreases panes.len() - i,
    {
        assert(panes@.take(i + 1).drop_last() =~= panes@.take(i as int));
        if panes[i].enabled {
            n = n + 1;
        }
        i = i + 1;
    }
    assert(panes@.take(panes.len() as int) =~= panes@);
    n
}

/// Once planning has stopped on an error, later panes change nothing.
proof fn lemma_failure_is_final(
    config: LauncherConfig,
    preview: bool,
    require_existing_path: bool,
    envs: Seq<PaneEnvironment>,
    k: nat,
    j: nat,
)
    requires
        k <= j,
        draft_upto(config, preview, require_existing_path, envs, k).failure is Some,
    ensures
        draft_upto(config, preview, require_existing_path, envs, j) == draft_upto(
            config,
            preview,
            require_existing_path,
            envs,
            k,
        ),
    decreases j - k,
{
    if j > k {
        lemma_failure_is_final(config, preview, require_existing_path, envs, k, (j - 1) as nat);
    }
}

/// Plans every pane of `config` (see `draft_spec`). `envs[i]` is what was
/// learned outside about pane `i`; when `require_existing_path` holds, a pane
/// whose directory does not exist is reported.
pub fn build_mac_pane_plans(
    config: &LauncherConfig,
    preview: bool,
    require_existing_path: bool,
    envs: &Vec<PaneEnvironment>,
) -> (d: MacPlanDraft)
    requires
        envs.len() == config.panes.len(),
    ensures
        draft_view(d) == draft_spec(*config, preview, require_existing_path, envs@),
{
    let ghost panes = config.panes@;
    let count = count_enabled(&config.panes);
    let mut errors: Vec<String> = Vec::new();
    if count == 0 {
        errors.push(to_owned_string("Enable at least one pane."));
    }
    if count > MAX_PANES {
        let mut message = to_owned_string("Pane count cannot exceed ");
        let digits = usize_to_string(MAX_PANES);
        push_str(&mut message, digits.as_str());
        push_str(&mut message, ".");
        errors.push(message);
    }
    assert(errors@.map_values(|e: String| e@) =~= initial_errors(panes));
    let default_profile = mac_default_profile(config);
    let mut plans: Vec<MacPanePlan> = Vec::new();
    let mut files: Vec<RunArgsFile> = Vec::new();
    let mut needs_codex = false;
    let mut i: usize = 0;
    assert(plans@.map_values(|p: MacPanePlan| p@) =~= Seq::<PlanView>::empty());
    assert(files@.map_values(|f: RunArgsFile| (f.path@, f.content@)) =~= Seq::<
        (Seq<char>, Seq<char>),
    >::empty());
    assert(draft_view(
        MacPlanDraft { plans, errors, files, needs_codex, failure: None },
    ) =~= draft_upto(*config, preview, require_existing_path, envs@, 0));
    while i < config.panes.len()
        invariant
            i <= config.panes.len() == envs.len(),
            panes == config.panes@,
            default_profile@ == mac_default_profile_spec(config.default_profile@),
            draft_view(MacPlanDraft { plans, errors, files, needs_codex, failure: None })
                == draft_upto(*config, preview, require_existing_path, envs@, i as nat),
        decreases config.panes.len() - i,
    {
        let ghost before = draft_upto(*config, preview, require_existing_path, envs@, i as nat);
        let pane = &config.panes[i];
        if pane.enabled {
            let r = plan_pane(pane, i, &default_profile, preview, require_existing_path, &envs[i]);
            match r {
                PanePlanResult::Skipped(e) => {
                    let ghost old_errors = errors@;
                    let ghost ev = e@;
                    errors.push(e);
                    assert(errors@.map_values(|e: String| e@) =~= old_errors.map_values(
                        |e: String| e@,
                    ).push(ev));
                    assert(draft_view(
                        MacPlanDraft { plans, errors, files, needs_codex, failure: None },
                    ) =~= draft_upto(*config, preview, require_existing_path, envs@, (i + 1) as nat));
                },
                PanePlanResult::Failed(e) => {
                    let d = MacPlanDraft { plans, errors, files, needs_codex, failure: Some(e) };
                    proof {
                        assert(draft_view(d) =~= draft_upto(
                            *config,
                            preview,
                            require_existing_path,
                            envs@,
                            (i + 1) as nat,
                        ));
                        lemma_failure_is_final(
                            *config,
                            preview,
                            require_existing_path,
                            envs@,
                            (i + 1) as nat,
                            panes.len(),
                        );
                    }
                    return d;
                },
                PanePlanResult::Planned(plan, file, codex) => {
                    let ghost old_plans = plans@;
                    let ghost old_files = files@;
                    let ghost pv = plan@;
                    plans.push(plan);
                    assert(plans@.map_values(|p: MacPanePlan| p@) =~= old_plans.map_values(
                        |p: MacPanePlan| p@,
                    ).push(pv));
                    match file {
                        Some(w) => {
                            let ghost wv = (w.path@, w.content@);
                            files.push(w);
                            assert(files@.map_values(|f: RunArgsFile| (f.path@, f.content@))
                                =~= old_files.map_values(|f: RunArgsFile| (f.path@, f.content@)).push(
                                wv,
                            ));
                        },
                        None => {},
                    }
                    needs_codex = needs_codex || codex;
                    assert(draft_view(
                        MacPlanDraft { plans, errors, files, needs_codex, failure: None },
                    ) =~= draft_upto(*config, preview, require_existing_path, envs@, (i + 1) as nat));
                },
            }
        }
        i = i + 1;
    }
    MacPlanDraft { plans, errors, files, needs_codex, failure: None }
}

// ---------------------------------------------------------------------------
// Finishing a plan
// ---------------------------------------------------------------------------

/// The error reported when a pane runs Codex but `codex` cannot be found.
pub open spec fn codex_missing_message() -> Seq<char> {
    "At least one pane uses Codex, but `codex` was not found from the macOS login shell."@
}

/// Each error as a list item.
pub open spec fn error_items(errors: Seq<Seq<char>>) -> Seq<Seq<char>> {
    errors.map_values(|e: Seq<char>| "- "@ + e)
}

/// The outcome of a launch plan. A failed prompt-file write is reported
/// first, then the error that stopped planning; otherwise the plans stand
/// unless errors were collected (a missing `codex` among them when a planned
/// pane runs Codex), which are reported together, one `- ` item per line.
pub open spec fn finish_spec(draft: DraftView, write_error: Option<Seq<char>>, codex_found: bool) -> Result<
    Seq<PlanView>,
    Seq<char>,
> {
    match write_error {
        Some(e) => Err(e),
        None => match draft.failure {
            Some(e) => Err(e),
            None => {
                let errors = draft.errors + if draft.needs_codex && !codex_found {
                    seq![codex_missing_message()]
                } else {
                    Seq::empty()
                };
                if errors.len() == 0 {
                    Ok(draft.plans)
                } else {
                    Err(join_spec(error_items(errors), "\n"@))
                }
            },
        },
    }
}

/// The view of a plan result.
pub open spec fn plans_result_view(r: Result<Vec<MacPanePlan>, String>) -> Result<
    Seq<PlanView>,
    Seq<char>,
> {
    match r {
        Ok(p) => Ok(p@.map_values(|q: MacPanePlan| q@)),
        Err(e) => Err(e@),
    }
}

/// The outcome of a launch plan (see `finish_spec`). `write_error` is the
/// first failed write of the draft's prompt files, and `codex_found` whether
/// the `codex` command was found (it matters only when a pane runs Codex).
pub fn finish_mac_pane_plans(draft: MacPlanDraft, write_error: Option<String>, codex_found: bool) -> (r:
    Result<Vec<MacPanePlan>, String>)
    ensures
        plans_result_view(r) == finish_spec(
            draft_view(draft),
            match write_error {
                Some(e) => Some(e@),
                None => None,
            },
            codex_found,
        ),
{
    if let Some(e) = write_error {
        return Err(e);
    }
    if let Some(e) = draft.failure {
        return Err(e);
    }
    let mut errors = draft.errors;
    if draft.needs_codex && !codex_found {
        errors.push(
            to_owned_string(
                "At least one pane uses Codex, but `codex` was not found from the macOS login shell.",
            ),
        );
    }
    let ghost all = draft_view(draft).errors + if draft.needs_codex && !codex_found {
        seq![codex_missing_message()]
    } else {
        Seq::empty()
    };
    assert(errors@.map_values(|e: String| e@) =~= all);
    if errors.len() == 0 {
        return Ok(draft.plans);
    }
    let mut items: Vec<String> = Vec::new();
    let mut i: usize = 0;
    while i < errors.len()
        invariant
            i <= errors.len(),
            errors@.map_values(|e: String| e@) == all,
            items@.map_values(|e: String| e@) == error_items(all.take(i as int)),
        decreases errors.len() - i,
    {
        let mut item = to_owned_string("- ");
        push_str(&mut item, errors[i].as_str());
        let ghost old_items = items@;
        let ghost iv = item@;
        items.push(item);
        assert(items@.map_values(|e: String| e@) =~= old_items.map_values(|e: String| e@).push(iv));
        assert(all.take(i + 1) =~= all.take(i as int).push(all[i as int]));
        assert(all[i as int] == errors@[i as int]@);
        assert(items@.map_values(|e: String| e@) =~= error_items(all.take(i + 1)));
        i = i + 1;
    }
    assert(all.take(errors.len() as int) =~= all);
    Err(join(&items, "\n"))
}

// ---------------------------------------------------------------------------
// Laws
// ---------------------------------------------------------------------------

proof fn lemma_draft_counts(
    config: LauncherConfig,
    preview: bool,
    require_existing_path: bool,
    envs: Seq<PaneEnvironment>,
    j: nat,
)
    requires
        j <= config.panes@.len(),
        draft_upto(config, preview, require_existing_path, envs, j).failure is None,
    ensures
        ({
            let d = draft_upto(config, preview, require_existing_path, envs, j);
            &&& d.plans.len() + d.errors.len() == enabled_count(config.panes@.take(j as int))
                + initial_errors(config.panes@).len()
            &&& d.errors.len() >= initial_errors(config.panes@).len()
        }),
    decreases j,
{
    if j > 0 {
        let d0 = draft_upto(config, preview, require_existing_path, envs, (j - 1) as nat);
        if d0.failure is Some {
            lemma_failure_is_final(config, preview, require_existing_path, envs, (j - 1) as nat, j);
        }
        lemma_draft_counts(config, preview, require_existing_path, envs, (j - 1) as nat);
        assert(config.panes@.take(j as int).drop_last() =~= config.panes@.take(j - 1));
    }
}

/// The 1-based positions of the enabled panes, in order.
pub open spec fn enabled_numbers(panes: Seq<PaneConfig>) -> Seq<nat>
    decreases panes.len(),
{
    if panes.len() == 0 {
        Seq::empty()
    } else {
        enabled_numbers(panes.drop_last()) + if panes.last().enabled {
            seq![panes.len()]
        } else {
            Seq::<nat>::empty()
        }
    }
}

/// The pane numbers of some plans.
pub open spec fn plan_numbers(plans: Seq<PlanView>) -> Seq<nat> {
    plans.map_values(|p: PlanView| p.pane_number)
}

proof fn lemma_plan_numbers(
    config: LauncherConfig,
    preview: bool,
    require_existing_path: bool,
    envs: Seq<PaneEnvironment>,
    j: nat,
)
    requires
        j <= config.panes@.len(),
        draft_upto(config, preview, require_existing_path, envs, j).failure is None,
        draft_upto(config, preview, require_existing_path, envs, j).errors.len() == initial_errors(
            config.panes@,
        ).len(),
    ensures
        plan_numbers(draft_upto(config, preview, require_existing_path, envs, j).plans)
            == enabled_numbers(config.panes@.take(j as int)),
    decreases j,
{
    let panes = config.panes@;
    if j == 0 {
        assert(panes.take(0) =~= Seq::<PaneConfig>::empty());
        assert(plan_numbers(Seq::<PlanView>::empty()) =~= Seq::<nat>::empty());
    } else {
        let i = (j - 1) as nat;
        let d0 = draft_upto(config, preview, require_existing_path, envs, i);
        let d = draft_upto(config, preview, require_existing_path, envs, j);
        if d0.failure is Some {
            lemma_failure_is_final(config, preview, require_existing_path, envs, i, j);
        }
        lemma_draft_counts(config, preview, require_existing_path, envs, i);
        lemma_plan_numbers(config, preview, require_existing_path, envs, i);
        assert(panes.take(j as int).drop_last() =~= panes.take(i as int));
        assert(panes.take(j as int).last() == panes[i as int]);
        assert(panes.take(j as int).len() == j);
        if panes[i as int].enabled {
            let o = pane_outcome(
                panes[i as int],
                i,
                mac_default_profile_spec(config.default_profile@),
                preview,
                require_existing_path,
                envs[i as int],
            );
            match o {
                PaneOutcome::Planned(p, f, c) => {
                    assert(p.pane_number == j);
                    assert(plan_numbers(d.plans) =~= plan_numbers(d0.plans).push(j));
                },
                _ => {},
            }
        } else {
            assert(enabled_numbers(panes.take(j as int)) =~= enabled_numbers(panes.take(i as int)));
        }
    }
}

/// Law: in a launch (not a preview), a pane that hands Codex its merged prompt
/// directly is planned with a prompt file at the pane's `run_args_file`
/// holding exactly the merged prompt, and its launch command ends by reading
/// that very file into Codex's last argument and deleting it, then starting
/// the login shell.
pub proof fn lemma_direct_launch_reads_prompt_file(
    pane: PaneConfig,
    index: nat,
    default_profile: Seq<char>,
    require_existing_path: bool,
    env: PaneEnvironment,
)
    requires
        uses_codex_spec(pane),
        normalized_delivery_spec(pane.codex_prompt_delivery@) == Ok::<Seq<char>, Seq<char>>(
            "direct"@,
        ),
        merged_prompt_spec(pane, result_view(env.shared_template), result_view(env.tool_template)) is Ok,
        pane_outcome(pane, index, default_profile, false, require_existing_path, env) is Planned,
    ensures
        match pane_outcome(pane, index, default_profile, false, require_existing_path, env) {
            PaneOutcome::Planned(p, f, c) => {
                let q = sh_quote_spec(env.run_args_file@);
                &&& c
                &&& f == Some(
                    (
                        env.run_args_file@,
                        merged_prompt_spec(
                            pane,
                            result_view(env.shared_template),
                            result_view(env.tool_template),
                        )->Ok_0,
                    ),
                )
                &&& has_suffix(
                    p.shell_command,
                    "\"$(cat "@ + q + "; rm -f "@ + q + ")\""@ + "; "@
                        + "exec \"${SHELL:-/bin/zsh}\" -l"@,
                )
            },
            _ => true,
        },
{
    reveal_strlit("manual");
    reveal_strlit("direct");
    assert("manual"@ != "direct"@) by {
        assert("manual"@[0] != "direct"@[0]);
    }
    let file = env.run_args_file@;
    let q = sh_quote_spec(file);
    let words = codex_words(pane);
    let arg = prompt_file_argument(file);
    let cmd = join_spec(words.push(arg), " "@);
    lemma_codex_launch_command(words, file);
    lemma_wrap_runs_command_whatever_title(env.path@, pane.title@, cmd);
    let tail = "; "@ + "exec \"${SHELL:-/bin/zsh}\" -l"@;
    assert(trim_ws(cmd) + "; "@ + "exec \"${SHELL:-/bin/zsh}\" -l"@ =~= (join_spec(words, " "@)
        + " "@) + (arg + tail));
    lemma_suffix_of_suffix(
        wrap_shell_command_spec(env.path@, pane.title@, cmd),
        join_spec(words, " "@) + " "@,
        arg + tail,
    );
    assert(arg + tail =~= "\"$(cat "@ + q + "; rm -f "@ + q + ")\""@ + "; "@
        + "exec \"${SHELL:-/bin/zsh}\" -l"@);
}

/// The Codex command of a direct launch is the `codex` words, a space and
/// the prompt-file argument, with no whitespace to trim at either end.
proof fn lemma_codex_launch_command(words: Seq<Seq<char>>, file: Seq<char>)
    requires
        words.len() >= 1,
        words[0] == "codex"@,
    ensures
        join_spec(words.push(prompt_file_argument(file)), " "@) == join_spec(words, " "@) + " "@
            + prompt_file_argument(file),
        trim_ws(join_spec(words.push(prompt_file_argument(file)), " "@)) == join_spec(
            words.push(prompt_file_argument(file)),
            " "@,
        ),
        !is_blank_spec(join_spec(words.push(prompt_file_argument(file)), " "@)),
{
    reveal_strlit("codex");
    reveal_strlit(")\"");
    let arg = prompt_file_argument(file);
    let joined = join_spec(words, " "@);
    let cmd = join_spec(words.push(arg), " "@);
    lemma_join_push(words, " "@, arg);
    lemma_join_starts_with_first(words, " "@);
    assert("codex"@[0] == 'c');
    assert(joined.take("codex"@.len() as int)[0] == joined[0]);
    assert(cmd =~= joined + (" "@ + arg));
    assert(cmd[0] == 'c');
    let q = sh_quote_spec(file);
    assert(arg =~= ("\"$(cat "@ + q + "; rm -f "@ + q) + ")\""@);
    assert(cmd.last() == '"');
    lemma_trim_keeps_inner(cmd);
}

/// Law: a preview writes no prompt files.
pub proof fn lemma_preview_writes_no_files(
    config: LauncherConfig,
    require_existing_path: bool,
    envs: Seq<PaneEnvironment>,
)
    ensures
        draft_spec(config, true, require_existing_path, envs).files.len() == 0,
{
    lemma_preview_files_upto(config, require_existing_path, envs, config.panes@.len());
}

proof fn lemma_preview_files_upto(
    config: LauncherConfig,
    require_existing_path: bool,
    envs: Seq<PaneEnvironment>,
    j: nat,
)
    ensures
        draft_upto(config, true, require_existing_path, envs, j).files.len() == 0,
    decreases j,
{
    if j > 0 {
        lemma_preview_files_upto(config, require_existing_path, envs, (j - 1) as nat);
    }
}

/// Law: a launch plan succeeds only when between 1 and `MAX_PANES` panes
/// are enabled, and then it holds one plan for each enabled pane, in the
/// panes' order, numbered by their 1-based positions.
pub proof fn lemma_successful_plan_covers_enabled_panes(
    config: LauncherConfig,
    preview: bool,
    require_existing_path: bool,
    envs: Seq<PaneEnvironment>,
    write_error: Option<Seq<char>>,
    codex_found: bool,
)
    ensures
        finish_spec(
            draft_spec(config, preview, require_existing_path, envs),
            write_error,
            codex_found,
        ) is Ok ==> {
            let n = enabled_count(config.panes@);
            &&& 1 <= n <= MAX_PANES
            &&& finish_spec(
                draft_spec(config, preview, require_existing_path, envs),
                write_error,
                codex_found,
            )->Ok_0.len() == n
            &&& plan_numbers(
                finish_spec(
                    draft_spec(config, preview, require_existing_path, envs),
                    write_error,
                    codex_found,
                )->Ok_0,
            ) == enabled_numbers(config.panes@)
        },
{
    let d = draft_spec(config, preview, require_existing_path, envs);
    if finish_spec(d, write_error, codex_found) is Ok {
        lemma_draft_counts(config, preview, require_existing_path, envs, config.panes@.len());
        assert(config.panes@.take(config.panes@.len() as int) =~= config.panes@);
        let n = enabled_count(config.panes@);
        if n == 0 {
            assert(initial_errors(config.panes@).len() > 0);
        }
        if n > MAX_PANES {
            assert(initial_errors(config.panes@).len() > 0);
        }
        lemma_plan_numbers(config, preview, require_existing_path, envs, config.panes@.len());
    }
}

} // verus!
