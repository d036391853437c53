//! The Codex command of a pane: its flags, the merged prompt built from the
//! pane's prompt and two templates, and how that prompt reaches Codex.

use vstd::prelude::*;
use vstd::utf8::encode_utf8;
use crate::config::{
    PaneConfig, codex_mode_args, codex_mode_args_spec, normalized_delivery,
    normalized_delivery_spec,
};
use crate::quote::{
    lemma_sh_quote_round_trip, safe_file_stem, safe_file_stem_spec, sh_quote, sh_quote_spec,
    sh_word_value,
};
use crate::text::{
    decimal, has_suffix, is_blank, lemma_join_push, is_blank_spec, join, join_spec, push_str, result_view,
    str_eq, to_owned_string, trim, trim_ws, usize_to_string, ends_with,
};

verus! {

/// The shared template used when a pane names none.
pub open spec fn default_shared_template() -> Seq<char> {
    "全栈的提示词留档.md"@
}

/// The tool template used when a pane names none.
pub open spec fn default_tool_template() -> Seq<char> {
    "codex的模板.md"@
}

/// A template name as a pane gives it: the default when blank, trimmed otherwise.
pub open spec fn template_choice(name: Seq<char>, default: Seq<char>) -> Seq<char> {
    if is_blank_spec(name) {
        default
    } else {
        trim_ws(name)
    }
}

/// The names of the shared and the tool template that a pane's merged prompt reads.
pub fn codex_template_names(pane: &PaneConfig) -> (r: (String, String))
    ensures
        r.0@ == template_choice(pane.codex_template@, default_shared_template()),
        r.1@ == template_choice(pane.codex_tool_template@, default_tool_template()),
{
    let shared = if is_blank(pane.codex_template.as_str()) {
        to_owned_string("全栈的提示词留档.md")
    } else {
        trim(pane.codex_template.as_str())
    };
    let tool = if is_blank(pane.codex_tool_template.as_str()) {
        to_owned_string("codex的模板.md")
    } else {
        trim(pane.codex_tool_template.as_str())
    };
    (shared, tool)
}

/// The sections of a merged prompt: the user prompt (when there is one), then
/// the shared template and the tool template, each under its heading.
pub open spec fn merged_prompt_parts(pane: PaneConfig, shared: Seq<char>, tool: Seq<char>) -> Seq<
    Seq<char>,
> {
    let user = if !is_blank_spec(pane.codex_prompt@) {
        seq!["## User Prompt"@, trim_ws(pane.codex_prompt@)]
    } else {
        Seq::empty()
    };
    user + seq![
        "## Shared Prompt Template: "@ + template_choice(pane.codex_template@, default_shared_template()),
        trim_ws(shared),
        "## Tool Prompt Template: "@ + template_choice(pane.codex_tool_template@, default_tool_template()),
        trim_ws(tool),
    ]
}

/// The merged prompt: its sections separated by blank lines; a failed
/// template read gives its error, the shared template's first.
pub open spec fn merged_prompt_spec(
    pane: PaneConfig,
    shared: Result<Seq<char>, Seq<char>>,
    tool: Result<Seq<char>, Seq<char>>,
) -> Result<Seq<char>, Seq<char>> {
    match shared {
        Err(e) => Err(e),
        Ok(s) => match tool {
            Err(e) => Err(e),
            Ok(t) => Ok(join_spec(merged_prompt_parts(pane, s, t), "\n\n"@)),
        },
    }
}

/// Law: with both templates read, the merged prompt is the user prompt
/// section (only when the pane has a prompt), then the shared template under
/// a heading that names the shared template the pane chose, then the tool
/// template under a heading that names the tool template the pane chose
/// (the names `codex_template_names` gives), separated by blank lines.
pub proof fn lemma_merged_prompt_names_chosen_templates(
    pane: PaneConfig,
    shared: Seq<char>,
    tool: Seq<char>,
)
    ensures
        ({
            let shared_name = template_choice(pane.codex_template@, default_shared_template());
            let tool_name = template_choice(pane.codex_tool_template@, default_tool_template());
            let templates = "## Shared Prompt Template: "@ + shared_name + "\n\n"@ + trim_ws(
                shared,
            ) + "\n\n"@ + "## Tool Prompt Template: "@ + tool_name + "\n\n"@ + trim_ws(tool);
            let m = merged_prompt_spec(
                pane,
                Ok::<Seq<char>, Seq<char>>(shared),
                Ok::<Seq<char>, Seq<char>>(tool),
            );
            &&& m is Ok
            &&& is_blank_spec(pane.codex_prompt@) ==> m->Ok_0 == templates
            &&& !is_blank_spec(pane.codex_prompt@) ==> m->Ok_0 == "## User Prompt"@ + "\n\n"@
                + trim_ws(pane.codex_prompt@) + "\n\n"@ + templates
        }),
{
    let sep = "\n\n"@;
    let a = "## Shared Prompt Template: "@ + template_choice(
        pane.codex_template@,
        default_shared_template(),
    );
    let b = trim_ws(shared);
    let c = "## Tool Prompt Template: "@ + template_choice(
        pane.codex_tool_template@,
        default_tool_template(),
    );
    let d = trim_ws(tool);
    let parts = merged_prompt_parts(pane, shared, tool);
    if is_blank_spec(pane.codex_prompt@) {
        assert(parts =~= seq![a].push(b).push(c).push(d));
        assert(join_spec(seq![a], sep) == a);
        lemma_join_push(seq![a], sep, b);
        lemma_join_push(seq![a].push(b), sep, c);
        lemma_join_push(seq![a].push(b).push(c), sep, d);
        assert(join_spec(parts, sep) =~= a + sep + b + sep + c + sep + d);
    } else {
        let u0 = "## User Prompt"@;
        let u1 = trim_ws(pane.codex_prompt@);
        assert(parts =~= seq![u0].push(u1).push(a).push(b).push(c).push(d));
        assert(join_spec(seq![u0], sep) == u0);
        lemma_join_push(seq![u0], sep, u1);
        lemma_join_push(seq![u0].push(u1), sep, a);
        lemma_join_push(seq![u0].push(u1).push(a), sep, b);
        lemma_join_push(seq![u0].push(u1).push(a).push(b), sep, c);
        lemma_join_push(seq![u0].push(u1).push(a).push(b).push(c), sep, d);
        assert(join_spec(parts, sep) =~= u0 + sep + u1 + sep + (a + sep + b + sep + c + sep + d));
    }
}

/// The prompt that a direct-delivery pane hands Codex, from the texts (or the
/// read errors) of its two templates.
pub fn new_codex_merged_prompt(
    pane: &PaneConfig,
    shared: &Result<String, String>,
    tool: &Result<String, String>,
) -> (r: Result<String, String>)
    ensures
        result_view(r) == merged_prompt_spec(*pane, result_view(*shared), result_view(*tool)),
{
    let shared_text = match shared {
        Err(e) => {
            return Err(to_owned_string(e.as_str()));
        },
        Ok(s) => s,
    };
    let tool_text = match tool {
        Err(e) => {
            return Err(to_owned_string(e.as_str()));
        },
        Ok(t) => t,
    };
    let (template_name, tool_template_name) = codex_template_names(pane);
    let mut parts: Vec<String> = Vec::new();
    if !is_blank(pane.codex_prompt.as_str()) {
        parts.push(to_owned_string("## User Prompt"));
        parts.push(trim(pane.codex_prompt.as_str()));
    }
    let mut heading = to_owned_string("## Shared Prompt Template: ");
    push_str(&mut heading, template_name.as_str());
    parts.push(heading);
    parts.push(trim(shared_text.as_str()));
    let mut tool_heading = to_owned_string("## Tool Prompt Template: ");
    push_str(&mut tool_heading, tool_template_name.as_str());
    parts.push(tool_heading);
    parts.push(trim(tool_text.as_str()));
    assert(parts@.map_values(|p: String| p@) =~= merged_prompt_parts(
        *pane,
        shared_text@,
        tool_text@,
    ));
    Ok(join(&parts, "\n\n"))
}

/// The length in UTF-8 bytes of a text, as `str::len` reports it.
pub open spec fn byte_len(s: Seq<char>) -> nat {
    (encode_utf8(s).len() as usize) as nat
}

/// The stand-in for a prompt of `len` UTF-8 bytes in previews.
pub open spec fn prompt_placeholder(len: nat) -> Seq<char> {
    "<direct prompt, "@ + decimal(len) + " chars>"@
}

/// The shell argument that reads the prompt file `file` and then deletes it.
pub open spec fn prompt_file_argument(file: Seq<char>) -> Seq<char> {
    "\"$(cat "@ + sh_quote_spec(file) + "; rm -f "@ + sh_quote_spec(file) + ")\""@
}

/// The words of the `codex` command before any prompt: `codex` and the mode's flags.
pub open spec fn codex_words(pane: PaneConfig) -> Seq<Seq<char>> {
    seq!["codex"@] + codex_mode_args_spec(pane.codex_mode@)
}

/// What building a pane's Codex command gives: the command to run, the
/// command to show in previews, the delivery mode, and the prompt file to
/// write first (path and content), if any.
pub struct CodexCommandView {
    pub command: Seq<char>,
    pub preview_command: Seq<char>,
    pub delivery: Seq<char>,
    pub prompt_file: Option<(Seq<char>, Seq<char>)>,
}

/// A pane's Codex command. With `manual` delivery Codex starts with its flags
/// only. With `direct` delivery the merged prompt is its last argument: in a
/// preview as a placeholder giving its length in bytes; otherwise read from
/// the file `file`, which is written with the prompt beforehand and deleted by
/// the command. A refused delivery mode or a failed template read is the error.
pub open spec fn codex_command_spec(
    pane: PaneConfig,
    preview: bool,
    shared: Result<Seq<char>, Seq<char>>,
    tool: Result<Seq<char>, Seq<char>>,
    file: Seq<char>,
) -> Result<CodexCommandView, Seq<char>> {
    let words = codex_words(pane);
    match normalized_delivery_spec(pane.codex_prompt_delivery@) {
        Err(e) => Err(e),
        Ok(d) => if d == "manual"@ {
            Ok(
                CodexCommandView {
                    command: join_spec(words, " "@),
                    preview_command: join_spec(words, " "@),
                    delivery: d,
                    prompt_file: None,
                },
            )
        } else {
            match merged_prompt_spec(pane, shared, tool) {
                Err(e) => Err(e),
                Ok(m) => {
                    let placeholder = prompt_placeholder(byte_len(m));
                    Ok(
                        CodexCommandView {
                            command: join_spec(
                                words.push(
                                    if preview {
                                        placeholder
                                    } else {
                                        prompt_file_argument(file)
                                    },
                                ),
                                " "@,
                            ),
                            preview_command: join_spec(words.push(placeholder), " "@),
                            delivery: d,
                            prompt_file: if preview {
                                None
                            } else {
                                Some((file, m))
                            },
                        },
                    )
                },
            }
        },
    }
}

/// Law: with `manual` delivery Codex starts with its flags only: no prompt
/// argument, no prompt file, and the preview shows the same command.
pub proof fn lemma_manual_delivery_passes_no_prompt(
    pane: PaneConfig,
    preview: bool,
    shared: Result<Seq<char>, Seq<char>>,
    tool: Result<Seq<char>, Seq<char>>,
    file: Seq<char>,
)
    requires
        normalized_delivery_spec(pane.codex_prompt_delivery@) == Ok::<Seq<char>, Seq<char>>(
            "manual"@,
        ),
    ensures
        codex_command_spec(pane, preview, shared, tool, file) == Ok::<
            CodexCommandView,
            Seq<char>,
        >(
            CodexCommandView {
                command: join_spec(codex_words(pane), " "@),
                preview_command: join_spec(codex_words(pane), " "@),
                delivery: "manual"@,
                prompt_file: None,
            },
        ),
{
}

/// Law: when a launch (not a preview) hands a pane's merged prompt to Codex
/// directly, the prompt file it writes holds exactly the merged prompt, and
/// the command's last argument is a shell word that names exactly that file.
pub proof fn lemma_direct_prompt_reaches_codex(
    pane: PaneConfig,
    shared: Result<Seq<char>, Seq<char>>,
    tool: Result<Seq<char>, Seq<char>>,
    file: Seq<char>,
)
    requires
        normalized_delivery_spec(pane.codex_prompt_delivery@) == Ok::<Seq<char>, Seq<char>>(
            "direct"@,
        ),
        merged_prompt_spec(pane, shared, tool) is Ok,
    ensures
        codex_command_spec(pane, false, shared, tool, file) is Ok,
        codex_command_spec(pane, false, shared, tool, file)->Ok_0.prompt_file == Some(
            (file, merged_prompt_spec(pane, shared, tool)->Ok_0),
        ),
        codex_command_spec(pane, false, shared, tool, file)->Ok_0.command == join_spec(
            codex_words(pane).push(prompt_file_argument(file)),
            " "@,
        ),
        sh_word_value(sh_quote_spec(file), false) == Some(file),
{
    reveal_strlit("manual");
    reveal_strlit("direct");
    assert("manual"@ != "direct"@) by {
        assert("manual"@[0] != "direct"@[0]);
    }
    lemma_sh_quote_round_trip(file);
}

/// A prompt file to write before launching: where, and what.
pub struct RunArgsFile {
    pub path: String,
    pub content: String,
}

/// A pane's Codex command, with the file (if any) to write before it runs.
pub struct CodexCommand {
    pub command: String,
    pub preview_command: String,
    pub delivery: String,
    pub prompt_file: Option<RunArgsFile>,
}

/// The view of a built Codex command.
pub open spec fn codex_command_view(c: CodexCommand) -> CodexCommandView {
    CodexCommandView {
        command: c.command@,
        preview_command: c.preview_command@,
        delivery: c.delivery@,
        prompt_file: match c.prompt_file {
            Some(f) => Some((f.path@, f.content@)),
            None => None,
        },
    }
}

/// The words of the `codex` command before any prompt.
fn codex_command_words(pane: &PaneConfig) -> (r: Vec<String>)
    ensures
        r@.map_values(|p: String| p@) == codex_words(*pane),
{
    let mut words: Vec<String> = Vec::new();
    words.push(to_owned_string("codex"));
    let args = codex_mode_args(pane.codex_mode.as_str());
    let mut i: usize = 0;
    while i < args.len()
        invariant
            i <= args.len(),
            args@.map_values(|a: &str| a@) == codex_mode_args_spec(pane.codex_mode@),
            words@.map_values(|p: String| p@) == seq!["codex"@] + args@.take(i as int).map_values(
                |a: &str| a@,
            ),
        decreases args.len() - i,
    {
        let ghost before = words@;
        let w = to_owned_string(args[i]);
        words.push(w);
        assert(args@.take(i + 1) =~= args@.take(i as int).push(args@[i as int]));
        assert(args@.take(i + 1).map_values(|a: &str| a@) =~= args@.take(i as int).map_values(
            |a: &str| a@,
        ).push(args@[i as int]@));
        assert(words@ =~= before.push(w));
        assert(words@.map_values(|p: String| p@) =~= before.map_values(|p: String| p@).push(w@));
        assert(words@.map_values(|p: String| p@) =~= seq!["codex"@] + args@.take(
            i + 1,
        ).map_values(|a: &str| a@));
        i = i + 1;
    }
    assert(args@.take(args.len() as int) =~= args@);
    words
}

/// The preview stand-in for a prompt.
fn placeholder_for(prompt: &String) -> (r: String)
    ensures
        r@ == prompt_placeholder(byte_len(prompt@)),
{
    let len = prompt.as_str().len();
    let mut r = to_owned_string("<direct prompt, ");
    let digits = usize_to_string(len);
    push_str(&mut r, digits.as_str());
    push_str(&mut r, " chars>");
    assert(r@ =~= prompt_placeholder(byte_len(prompt@)));
    r
}

/// Builds a pane's Codex command (see `codex_command_spec`). `shared` and
/// `tool` are the texts, or the read errors, of the pane's two templates;
/// `run_args_file` is where a direct prompt is to be written.
pub fn build_codex_shell_command(
    pane: &PaneConfig,
    preview: bool,
    shared: &Result<String, String>,
    tool: &Result<String, String>,
    run_args_file: &str,
) -> (r: Result<CodexCommand, String>)
    ensures
        match r {
            Ok(c) => codex_command_spec(
                *pane,
                preview,
                result_view(*shared),
                result_view(*tool),
                run_args_file@,
            ) == Ok::<CodexCommandView, Seq<char>>(codex_command_view(c)),
            Err(e) => codex_command_spec(
                *pane,
                preview,
                result_view(*shared),
                result_view(*tool),
                run_args_file@,
            ) == Err::<CodexCommandView, Seq<char>>(e@),
        },
{
    let mut command_words = codex_command_words(pane);
    let mut preview_words = codex_command_words(pane);
    let delivery = match normalized_delivery(pane.codex_prompt_delivery.as_str()) {
        Ok(d) => d,
        Err(e) => {
            return Err(e);
        },
    };
    if str_eq(delivery.as_str(), "manual") {
        return Ok(
            CodexCommand {
                command: join(&command_words, " "),
                preview_command: join(&preview_words, " "),
                delivery,
                prompt_file: None,
            },
        );
    }
    let merged = match new_codex_merged_prompt(pane, shared, tool) {
        Ok(m) => m,
        Err(e) => {
            return Err(e);
        },
    };
    let placeholder = placeholder_for(&merged);
    let ghost words = codex_words(*pane);
    if preview {
        command_words.push(to_owned_string(placeholder.as_str()));
    } else {
        let quoted = sh_quote(run_args_file);
        let mut argument = to_owned_string("\"$(cat ");
        push_str(&mut argument, quoted.as_str());
        push_str(&mut argument, "; rm -f ");
        push_str(&mut argument, quoted.as_str());
        push_str(&mut argument, ")\"");
        command_words.push(argument);
    }
    preview_words.push(placeholder);
    assert(command_words@.map_values(|p: String| p@) =~= words.push(
        if preview {
            prompt_placeholder(byte_len(merged@))
        } else {
            prompt_file_argument(run_args_file@)
        },
    ));
    assert(preview_words@.map_values(|p: String| p@) =~= words.push(
        prompt_placeholder(byte_len(merged@)),
    ));
    let prompt_file = if preview {
        None
    } else {
        Some(RunArgsFile { path: to_owned_string(run_args_file), content: merged })
    };
    Ok(
        CodexCommand {
            command: join(&command_words, " "),
            preview_command: join(&preview_words, " "),
            delivery,
            prompt_file,
        },
    )
}

/// The name of a prompt file: a unique `suffix`, the stem of the pane title,
/// and `-run-args.md`.
pub open spec fn run_args_file_name_spec(suffix: Seq<char>, title: Seq<char>) -> Seq<char> {
    suffix + "-"@ + safe_file_stem_spec(title) + "-run-args.md"@
}

/// The name of the prompt file for a pane titled `title`.
pub fn codex_run_args_file_name(suffix: &str, title: &str) -> (r: String)
    ensures
        r@ == run_args_file_name_spec(suffix@, title@),
{
    let mut r = to_owned_string(suffix);
    push_str(&mut r, "-");
    let stem = safe_file_stem(title);
    push_str(&mut r, stem.as_str());
    push_str(&mut r, "-run-args.md");
    r
}

/// Whether a directory entry is a leftover prompt file: a plain file whose
/// name ends with `-run-args.md`.
pub fn is_stale_run_args_file(is_file: bool, file_name: &str) -> (r: bool)
    ensures
        r == (is_file && has_suffix(file_name@, "-run-args.md"@)),
{
    is_file && ends_with(file_name, "-run-args.md")
}

} // verus!
