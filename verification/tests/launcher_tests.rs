use pane_launcher::codex::{
    build_codex_shell_command, codex_run_args_file_name, codex_template_names,
    is_stale_run_args_file, new_codex_merged_prompt,
};
use pane_launcher::config::{
    codex_mode_args, mac_default_profile, normalized_delivery, resolve_launcher_path, uses_codex,
    LauncherConfig, PaneConfig,
};
use pane_launcher::host::{
    backend_fallback_note, check_template_name, contains, directory_selection_result,
    macos_selection_cancelled, powershell_outcome, project_root_choice,
    resolve_windows_backend_path, search_template, template_not_found_message, TemplateCandidate, validate_template_name,
    windows_backend_request, windows_clipboard_script, windows_launch_started,
};
use pane_launcher::launch::{
    application_check_script, command_exists_script, command_failure_message,
    effective_window_mode, mac_launch_outcome, mac_launch_script,
};
use pane_launcher::plan::{
    build_mac_pane_plans, count_enabled, finish_mac_pane_plans, mac_plan_command,
    mac_shell_bootstrap, plan_pane, wrap_shell_command, MacPanePlan, PanePlanResult,
    PaneEnvironment, MAC_SHELL_BOOTSTRAP,
};
use pane_launcher::quote::{applescript_quote, safe_file_stem, sh_quote};
use pane_launcher::script::{
    action_with_profile, build_iterm_applescript, build_macos_preview,
    build_terminal_applescript, get_grid_columns, grid_column_count,
};
use pane_launcher::text::{
    chars_of, ends_with, eq_ignore_ascii_case, is_blank, join, replace, starts_with, str_eq,
    strip_prefix, trim, usize_to_string,
};

fn pane(enabled: bool, title: &str, path: &str) -> PaneConfig {
    PaneConfig {
        enabled,
        title: title.to_string(),
        path: path.to_string(),
        profile: String::new(),
        startup_command: String::new(),
        codex_mode: String::new(),
        codex_prompt: String::new(),
        codex_template: String::new(),
        codex_tool_template: String::new(),
        codex_prompt_delivery: String::new(),
    }
}

fn env(path: &str, is_dir: bool) -> PaneEnvironment {
    PaneEnvironment {
        path: path.to_string(),
        path_is_dir: is_dir,
        shared_template: Ok("SHARED".to_string()),
        tool_template: Ok("TOOL".to_string()),
        run_args_file: format!("/tmp/run/{}-run-args.md", path.len()),
    }
}

fn plan(number: usize, title: &str, profile: &str, path: &str, shell: &str, preview: &str, delivery: Option<&str>) -> MacPanePlan {
    MacPanePlan {
        pane_number: number,
        title: title.to_string(),
        profile: profile.to_string(),
        path: path.to_string(),
        shell_command: shell.to_string(),
        preview_command: preview.to_string(),
        delivery: delivery.map(|d| d.to_string()),
    }
}

const LOGIN_SHELL: &str = "exec \"${SHELL:-/bin/zsh}\" -l";

// ---------------------------------------------------------------- text

#[test]
fn trim_removes_surrounding_whitespace() {
    assert_eq!(trim("  \t hello world \n").as_str(), "hello world");
    assert_eq!(trim("\u{A0}x\u{3000}").as_str(), "x");
    assert_eq!(trim("   ").as_str(), "");
    assert_eq!(trim("").as_str(), "");
}

#[test]
fn is_blank_matches_empty_trim() {
    assert!(is_blank(""));
    assert!(is_blank(" \t\r\n"));
    assert!(!is_blank(" a "));
    for s in ["", " ", "x", " x ", "\n\t"] {
        assert_eq!(is_blank(s), trim(s).is_empty());
    }
}

#[test]
fn prefix_suffix_and_equality() {
    assert!(starts_with("~/code", "~/"));
    assert!(!starts_with("~", "~/"));
    assert_eq!(strip_prefix("$HOME/x/y", "$HOME/"), Some("x/y".to_string()));
    assert_eq!(strip_prefix("$HOM/x", "$HOME/"), None);
    assert!(ends_with("123-pane-run-args.md", "-run-args.md"));
    assert!(!ends_with("run-args.md", "-run-args.md"));
    assert!(str_eq("abc", "abc"));
    assert!(!str_eq("abc", "abd"));
    assert!(eq_ignore_ascii_case("Windows PowerShell", "windows powershell"));
    assert!(!eq_ignore_ascii_case("powershel", "powershell"));
    assert!(!eq_ignore_ascii_case("É", "é"));
}

#[test]
fn replace_join_and_decimal() {
    assert_eq!(replace("a'b'c", '\'', "''").as_str(), "a''b''c");
    assert_eq!(replace("abc", 'x', "yy").as_str(), "abc");
    let parts = vec!["a".to_string(), "".to_string(), "c".to_string()];
    assert_eq!(join(&parts, ", ").as_str(), "a, , c");
    assert_eq!(join(&Vec::new(), "\n").as_str(), "");
    assert_eq!(usize_to_string(0).as_str(), "0");
    assert_eq!(usize_to_string(20).as_str(), "20");
    assert_eq!(usize_to_string(1234567).as_str(), "1234567");
    assert_eq!(usize_to_string(usize::MAX), usize::MAX.to_string());
    let chars = chars_of("héllo");
    assert_eq!(chars, vec!['h', 'é', 'l', 'l', 'o']);
}

// ---------------------------------------------------------------- quoting

#[test]
fn sh_quote_wraps_and_escapes_single_quotes() {
    assert_eq!(sh_quote("plain").as_str(), "'plain'");
    assert_eq!(sh_quote("it's").as_str(), "'it'\"'\"'s'");
    assert_eq!(sh_quote("").as_str(), "''");
    assert_eq!(sh_quote("/tmp/a b/$HOME").as_str(), "'/tmp/a b/$HOME'");
}

#[test]
fn applescript_quote_escapes_backslash_quote_and_newlines() {
    assert_eq!(applescript_quote("a\\b\"c\r\nd").as_str(), "\"a\\\\b\\\"c\\nd\"");
    assert_eq!(applescript_quote("plain").as_str(), "\"plain\"");
    assert_eq!(applescript_quote("").as_str(), "\"\"");
}

#[test]
fn safe_file_stem_examples() {
    assert_eq!(safe_file_stem("My Pane/1").as_str(), "My-Pane-1");
    assert_eq!(safe_file_stem("--a b--").as_str(), "a-b");
    assert_eq!(safe_file_stem("***").as_str(), "pane");
    assert_eq!(safe_file_stem("").as_str(), "pane");
    assert_eq!(safe_file_stem("中文_x").as_str(), "中文_x");
}

#[test]
fn safe_file_stem_shape_law() {
    for title in ["", "--", "a", " a b ", "-x-", "é!?", "__", "a--b"] {
        let stem = safe_file_stem(title);
        if stem != "pane" {
            assert!(!stem.is_empty());
            assert!(!stem.starts_with('-'));
            assert!(!stem.ends_with('-'));
            assert!(stem.chars().all(|c| c.is_alphanumeric() || c == '-' || c == '_'));
        }
    }
}

// ---------------------------------------------------------------- config

#[test]
fn normalized_delivery_cases() {
    assert_eq!(normalized_delivery(""), Ok("manual".to_string()));
    assert_eq!(normalized_delivery("  "), Ok("manual".to_string()));
    assert_eq!(normalized_delivery(" direct "), Ok("direct".to_string()));
    assert_eq!(normalized_delivery("manual"), Ok("manual".to_string()));
    assert_eq!(normalized_delivery("file"), Ok("manual".to_string()));
    assert_eq!(normalized_delivery("auto"), Ok("manual".to_string()));
    assert_eq!(
        normalized_delivery("Direct"),
        Err("Codex prompt delivery must be manual or direct.".to_string())
    );
}

#[test]
fn normalized_delivery_is_manual_or_direct_law() {
    for value in ["", "direct", "file", "auto", "x", " manual "] {
        if let Ok(d) = normalized_delivery(value) {
            assert!(d == "manual" || d == "direct");
        }
    }
}

#[test]
fn codex_mode_args_cases() {
    assert_eq!(codex_mode_args(""), vec!["--yolo"]);
    assert_eq!(codex_mode_args(" yolo "), vec!["--yolo"]);
    assert_eq!(codex_mode_args("dangerous"), vec!["--dangerously-bypass-approvals-and-sandbox"]);
    assert_eq!(codex_mode_args("full-auto"), vec!["--full-auto"]);
    assert!(codex_mode_args("plain").is_empty());
}

#[test]
fn uses_codex_cases() {
    let mut p = pane(true, "", "/a");
    assert!(!uses_codex(&p));
    p.codex_prompt_delivery = " direct ".to_string();
    assert!(uses_codex(&p));
    p.codex_prompt_delivery = "manual".to_string();
    assert!(!uses_codex(&p));
    p.codex_mode = "yolo".to_string();
    assert!(uses_codex(&p));
    let mut q = pane(true, "", "/a");
    q.codex_prompt = "do it".to_string();
    assert!(uses_codex(&q));
}

#[test]
fn mac_default_profile_cases() {
    let mut config = LauncherConfig { window_mode: String::new(), default_profile: String::new(), panes: Vec::new() };
    assert_eq!(mac_default_profile(&config).as_str(), "");
    config.default_profile = "  PowerShell ".to_string();
    assert_eq!(mac_default_profile(&config).as_str(), "");
    config.default_profile = "Windows POWERSHELL".to_string();
    assert_eq!(mac_default_profile(&config).as_str(), "");
    config.default_profile = "command prompt".to_string();
    assert_eq!(mac_default_profile(&config).as_str(), "");
    config.default_profile = " Solarized ".to_string();
    assert_eq!(mac_default_profile(&config).as_str(), "Solarized");
}

#[test]
fn resolve_launcher_path_cases() {
    let home = Some("/home/u".to_string());
    assert_eq!(resolve_launcher_path(" ~ ", &home).as_str(), "/home/u");
    assert_eq!(resolve_launcher_path("~", &None).as_str(), "");
    assert_eq!(resolve_launcher_path("~/code", &home).as_str(), "/home/u/code");
    assert_eq!(resolve_launcher_path("$HOME/a", &home).as_str(), "/home/u/a");
    assert_eq!(resolve_launcher_path("${HOME}/b", &home).as_str(), "/home/u/b");
    assert_eq!(resolve_launcher_path("~/code", &None).as_str(), "~/code");
    assert_eq!(resolve_launcher_path("  /tmp/x ", &home).as_str(), "/tmp/x");
    assert_eq!(resolve_launcher_path("~user", &home).as_str(), "~user");
}

// ---------------------------------------------------------------- codex

#[test]
fn codex_template_names_defaults() {
    let mut p = pane(true, "", "/a");
    let (shared, tool) = codex_template_names(&p);
    assert_eq!(shared.as_str(), "全栈的提示词留档.md");
    assert_eq!(tool.as_str(), "codex的模板.md");
    p.codex_template = " mine.md ".to_string();
    p.codex_tool_template = "claudecode的模板.md".to_string();
    let (shared, tool) = codex_template_names(&p);
    assert_eq!(shared.as_str(), "mine.md");
    assert_eq!(tool.as_str(), "claudecode的模板.md");
}

#[test]
fn merged_prompt_layout() {
    let mut p = pane(true, "", "/a");
    p.codex_prompt = " do it ".to_string();
    let merged = new_codex_merged_prompt(&p, &Ok(" S \n".to_string()), &Ok("T".to_string()));
    assert_eq!(
        merged,
        Ok("## User Prompt\n\ndo it\n\n## Shared Prompt Template: 全栈的提示词留档.md\n\nS\n\n## Tool Prompt Template: codex的模板.md\n\nT".to_string())
    );
    p.codex_prompt = String::new();
    let merged = new_codex_merged_prompt(&p, &Ok("S".to_string()), &Ok("T".to_string()));
    assert_eq!(
        merged,
        Ok("## Shared Prompt Template: 全栈的提示词留档.md\n\nS\n\n## Tool Prompt Template: codex的模板.md\n\nT".to_string())
    );
    let failed = new_codex_merged_prompt(&p, &Err("no shared".to_string()), &Err("no tool".to_string()));
    assert_eq!(failed, Err("no shared".to_string()));
    let failed = new_codex_merged_prompt(&p, &Ok("S".to_string()), &Err("no tool".to_string()));
    assert_eq!(failed, Err("no tool".to_string()));
}

#[test]
fn manual_delivery_passes_no_prompt_law() {
    let mut p = pane(true, "", "/a");
    p.codex_mode = "full-auto".to_string();
    p.codex_prompt = "long prompt".to_string();
    let c = build_codex_shell_command(&p, false, &Ok("S".to_string()), &Ok("T".to_string()), "/tmp/f.md").unwrap();
    assert_eq!(c.command.as_str(), "codex --full-auto");
    assert_eq!(c.preview_command.as_str(), "codex --full-auto");
    assert_eq!(c.delivery.as_str(), "manual");
    assert!(c.prompt_file.is_none());
}

#[test]
fn direct_delivery_reads_prompt_file_law() {
    let mut p = pane(true, "", "/a");
    p.codex_prompt_delivery = "direct".to_string();
    p.codex_prompt = "做".to_string();
    let shared = Ok("S".to_string());
    let tool = Ok("T".to_string());
    let merged = new_codex_merged_prompt(&p, &shared, &tool).unwrap();
    let c = build_codex_shell_command(&p, false, &shared, &tool, "/tmp/x y.md").unwrap();
    assert_eq!(c.command.as_str(), "codex --yolo \"$(cat '/tmp/x y.md'; rm -f '/tmp/x y.md')\"");
    assert_eq!(c.preview_command, format!("codex --yolo <direct prompt, {} chars>", merged.len()));
    assert_eq!(c.delivery.as_str(), "direct");
    let file = c.prompt_file.unwrap();
    assert_eq!(file.path.as_str(), "/tmp/x y.md");
    assert_eq!(file.content, merged);
}

#[test]
fn direct_preview_writes_no_file() {
    let mut p = pane(true, "", "/a");
    p.codex_prompt_delivery = "direct".to_string();
    let shared = Ok("S".to_string());
    let tool = Ok("T".to_string());
    let merged = new_codex_merged_prompt(&p, &shared, &tool).unwrap();
    let c = build_codex_shell_command(&p, true, &shared, &tool, "/tmp/x.md").unwrap();
    let expected = format!("codex --yolo <direct prompt, {} chars>", merged.len());
    assert_eq!(c.command, expected);
    assert_eq!(c.preview_command, expected);
    assert!(c.prompt_file.is_none());
}

#[test]
fn codex_command_errors() {
    let mut p = pane(true, "", "/a");
    p.codex_prompt_delivery = "telepathy".to_string();
    let r = build_codex_shell_command(&p, false, &Ok("S".to_string()), &Ok("T".to_string()), "/f");
    assert_eq!(r.err(), Some("Codex prompt delivery must be manual or direct.".to_string()));
    p.codex_prompt_delivery = "direct".to_string();
    let r = build_codex_shell_command(&p, false, &Err("template missing".to_string()), &Ok("T".to_string()), "/f");
    assert_eq!(r.err(), Some("template missing".to_string()));
}

#[test]
fn run_args_file_names() {
    assert_eq!(codex_run_args_file_name("1700-42", "My Pane").as_str(), "1700-42-My-Pane-run-args.md");
    assert_eq!(codex_run_args_file_name("1", "").as_str(), "1-pane-run-args.md");
    assert!(is_stale_run_args_file(true, "1-pane-run-args.md"));
    assert!(!is_stale_run_args_file(false, "1-pane-run-args.md"));
    assert!(!is_stale_run_args_file(true, "notes.md"));
}

// ---------------------------------------------------------------- shell commands

#[test]
fn wrap_shell_command_cases() {
    assert_eq!(mac_shell_bootstrap(), MAC_SHELL_BOOTSTRAP);
    assert!(MAC_SHELL_BOOTSTRAP.starts_with("export PATH=\"/opt/homebrew/bin"));
    let script = wrap_shell_command("/tmp", " T ", " ls ");
    assert_eq!(
        script,
        format!("{} cd '/tmp' || exit 1; printf '\\033]0;%s\\007' 'T'; ls; {}", MAC_SHELL_BOOTSTRAP, LOGIN_SHELL)
    );
    let script = wrap_shell_command("/it's", "", "  ");
    assert_eq!(script, format!("{} cd '/it'\"'\"'s' || exit 1; {}", MAC_SHELL_BOOTSTRAP, LOGIN_SHELL));
}

#[test]
fn mac_plan_command_picks_preview_or_shell() {
    let p = plan(1, "t", "", "/a", "SHELL", "PREVIEW", None);
    assert_eq!(mac_plan_command(&p, true), "PREVIEW");
    assert_eq!(mac_plan_command(&p, false), "SHELL");
}

// ---------------------------------------------------------------- plans

#[test]
fn plan_pane_cases() {
    let mut p = pane(true, " Web ", "/srv");
    p.startup_command = " npm run dev ".to_string();
    let r = plan_pane(&p, 0, &"Default".to_string(), false, true, &env("/srv", true));
    match r {
        PanePlanResult::Planned(plan, file, codex) => {
            assert_eq!(plan.pane_number, 1);
            assert_eq!(plan.title.as_str(), "Web");
            assert_eq!(plan.profile.as_str(), "Default");
            assert_eq!(plan.path.as_str(), "/srv");
            let expected = format!(
                "{} cd '/srv' || exit 1; printf '\\033]0;%s\\007' 'Web'; npm run dev; {}",
                MAC_SHELL_BOOTSTRAP, LOGIN_SHELL
            );
            assert_eq!(plan.shell_command, expected);
            assert_eq!(plan.preview_command, expected);
            assert!(plan.delivery.is_none());
            assert!(file.is_none());
            assert!(!codex);
        }
        _ => panic!("expected a plan"),
    }
    let missing = plan_pane(&pane(true, "", "/nope"), 1, &String::new(), false, true, &env("/nope", false));
    match missing {
        PanePlanResult::Skipped(e) => assert_eq!(e.as_str(), "Pane 2 path does not exist: /nope"),
        _ => panic!("expected a skip"),
    }
    let blank = plan_pane(&pane(true, "", "  "), 6, &String::new(), false, true, &env("", false));
    match blank {
        PanePlanResult::Skipped(e) => assert_eq!(e.as_str(), "Pane 7 path is required."),
        _ => panic!("expected a skip"),
    }
}

#[test]
fn plans_for_enabled_panes() {
    let mut a = pane(true, "A", "/a");
    a.profile = " Dev ".to_string();
    let b = pane(false, "B", "/b");
    let mut c = pane(true, "C", "/c");
    c.codex_prompt_delivery = "direct".to_string();
    let config = LauncherConfig { window_mode: String::new(), default_profile: "Base".to_string(), panes: vec![a, b, c] };
    assert_eq!(count_enabled(&config.panes), 2);
    let envs = vec![env("/a", true), env("/b", true), env("/c", true)];
    let draft = build_mac_pane_plans(&config, false, true, &envs);
    assert_eq!(draft.plans.len(), 2);
    assert!(draft.errors.is_empty());
    assert!(draft.needs_codex);
    assert!(draft.failure.is_none());
    assert_eq!(draft.files.len(), 1);
    assert_eq!(draft.files[0].path, envs[2].run_args_file);
    assert_eq!(draft.plans[0].pane_number, 1);
    assert_eq!(draft.plans[0].profile.as_str(), "Dev");
    assert_eq!(draft.plans[1].pane_number, 3);
    assert_eq!(draft.plans[1].profile.as_str(), "Base");
    assert_eq!(draft.plans[1].delivery.as_deref(), Some("direct"));
    let plans = finish_mac_pane_plans(draft, None, true).unwrap();
    assert_eq!(plans.len(), 2);
}

#[test]
fn preview_writes_no_files_law() {
    let mut c = pane(true, "C", "/c");
    c.codex_prompt_delivery = "direct".to_string();
    let config = LauncherConfig { window_mode: String::new(), default_profile: String::new(), panes: vec![c] };
    let draft = build_mac_pane_plans(&config, true, false, &vec![env("/c", false)]);
    assert!(draft.files.is_empty());
    assert!(draft.plans[0].shell_command.contains("<direct prompt, "));
}

#[test]
fn no_enabled_pane_is_an_error() {
    let config = LauncherConfig { window_mode: String::new(), default_profile: String::new(), panes: vec![pane(false, "", "/a")] };
    let draft = build_mac_pane_plans(&config, true, true, &vec![env("/a", true)]);
    let result = finish_mac_pane_plans(draft, None, true);
    assert_eq!(result.err(), Some("- Enable at least one pane.".to_string()));
}

#[test]
fn more_than_twenty_panes_is_an_error_law() {
    let panes: Vec<PaneConfig> = (0..21).map(|i| pane(true, "", &format!("/p{i}"))).collect();
    let envs: Vec<PaneEnvironment> = (0..21).map(|i| env(&format!("/p{i}"), true)).collect();
    let config = LauncherConfig { window_mode: String::new(), default_profile: String::new(), panes };
    let draft = build_mac_pane_plans(&config, true, true, &envs);
    assert_eq!(draft.plans.len(), 21);
    let result = finish_mac_pane_plans(draft, None, true);
    assert_eq!(result.err(), Some("- Pane count cannot exceed 20.".to_string()));
}

#[test]
fn path_errors_are_reported_together() {
    let config = LauncherConfig {
        window_mode: String::new(),
        default_profile: String::new(),
        panes: vec![pane(true, "", ""), pane(true, "", "/missing"), pane(true, "", "/ok")],
    };
    let envs = vec![env("", false), env("/missing", false), env("/ok", true)];
    let draft = build_mac_pane_plans(&config, false, true, &envs);
    let result = finish_mac_pane_plans(draft, None, true);
    assert_eq!(
        result.err(),
        Some("- Pane 1 path is required.\n- Pane 2 path does not exist: /missing".to_string())
    );
    let draft = build_mac_pane_plans(&config, false, false, &envs);
    let result = finish_mac_pane_plans(draft, None, true);
    assert_eq!(result.err(), Some("- Pane 1 path is required.".to_string()));
}

#[test]
fn missing_codex_is_reported() {
    let mut c = pane(true, "", "/c");
    c.codex_mode = "yolo".to_string();
    let config = LauncherConfig { window_mode: String::new(), default_profile: String::new(), panes: vec![pane(true, "", ""), c] };
    let envs = vec![env("", false), env("/c", true)];
    let draft = build_mac_pane_plans(&config, false, true, &envs);
    assert!(draft.needs_codex);
    let result = finish_mac_pane_plans(draft, None, false);
    assert_eq!(
        result.err(),
        Some("- Pane 1 path is required.\n- At least one pane uses Codex, but `codex` was not found from the macOS login shell.".to_string())
    );
}

#[test]
fn failures_stop_planning_and_write_errors_come_first() {
    let mut first = pane(true, "", "/a");
    first.codex_prompt_delivery = "direct".to_string();
    let mut second = pane(true, "", "/b");
    second.codex_mode = "yolo".to_string();
    second.codex_prompt_delivery = "bogus".to_string();
    let config = LauncherConfig { window_mode: String::new(), default_profile: String::new(), panes: vec![first, second, pane(true, "", "")] };
    let envs = vec![env("/a", true), env("/b", true), env("", false)];
    let draft = build_mac_pane_plans(&config, false, true, &envs);
    assert_eq!(draft.failure.as_deref(), Some("Codex prompt delivery must be manual or direct."));
    assert_eq!(draft.files.len(), 1);
    assert!(draft.errors.is_empty());
    let result = finish_mac_pane_plans(draft, None, true);
    assert_eq!(result.err(), Some("Codex prompt delivery must be manual or direct.".to_string()));
    let draft = build_mac_pane_plans(&config, false, true, &envs);
    let result = finish_mac_pane_plans(draft, Some("Failed to write /x: denied".to_string()), true);
    assert_eq!(result.err(), Some("Failed to write /x: denied".to_string()));
}

// ---------------------------------------------------------------- grid and scripts

#[test]
fn grid_column_counts() {
    let expected = [0, 1, 2, 2, 2, 3, 3, 3, 3, 3, 4, 4, 4, 4, 4, 4, 4, 5, 5, 5, 5, 5, 5, 5, 5, 5, 5];
    for (n, k) in expected.iter().enumerate() {
        assert_eq!(grid_column_count(n), *k);
        let ceil_sqrt_capped = ((n as f64).sqrt().ceil().min(5.0)) as usize;
        assert_eq!(grid_column_count(n), ceil_sqrt_capped);
    }
}

#[test]
fn grid_columns_interleave_panes() {
    let items: Vec<usize> = (0..7).collect();
    assert_eq!(get_grid_columns(&items), vec![vec![0, 3, 6], vec![1, 4], vec![2, 5]]);
    assert_eq!(get_grid_columns(&[9usize]), vec![vec![9]]);
    assert!(get_grid_columns::<usize>(&[]).is_empty());
}

#[test]
fn grid_places_each_pane_once_law() {
    for n in 1..30usize {
        let items: Vec<usize> = (0..n).collect();
        let columns = get_grid_columns(&items);
        let k = columns.len();
        let mut seen = vec![0; n];
        for column in &columns {
            for item in column {
                seen[*item] += 1;
            }
        }
        assert!(seen.iter().all(|count| *count == 1));
        for i in 0..n {
            assert_eq!(columns[i % k][i / k], i);
        }
    }
}

#[test]
fn action_with_profile_cases() {
    assert_eq!(action_with_profile("create window", " ").as_str(), "create window with default profile");
    assert_eq!(action_with_profile("split vertically", "Dev").as_str(), "split vertically with profile \"Dev\"");
}

#[test]
fn terminal_applescript() {
    let plans = vec![
        plan(1, "", "", "/a", "echo 1", "P1", None),
        plan(2, "", "", "/b", "say \"hi\"", "P2", None),
    ];
    let script = build_terminal_applescript(&plans, " fullscreen ", false);
    let expected = vec![
        "tell application \"Terminal\"",
        "  activate",
        "  do script \"echo 1\"",
        "  do script \"say \\\"hi\\\"\"",
        "  -- Fullscreen is requested; Terminal.app opens normal windows through AppleScript.",
        "end tell",
    ]
    .join("\n");
    assert_eq!(script, expected);
    let preview = build_terminal_applescript(&plans, "normal", true);
    assert_eq!(
        preview,
        "tell application \"Terminal\"\n  activate\n  do script \"P1\"\n  do script \"P2\"\nend tell"
    );
}

fn three_plans() -> Vec<MacPanePlan> {
    vec![
        plan(1, "", "", "/a", "s0", "p0", None),
        plan(2, "Two", "Dev", "/b", "s1", "p1", Some("direct")),
        plan(4, "Four", "", "/d", "s2", "p2", Some("manual")),
    ]
}

#[test]
fn iterm_applescript_three_panes() {
    let script = build_iterm_applescript(&three_plans(), "maximized", true);
    let expected = vec![
        "tell application \"Finder\"",
        "  set desktopBounds to bounds of window of desktop",
        "end tell",
        "set leftEdge to (item 1 of desktopBounds) + 24",
        "set topEdge to (item 2 of desktopBounds) + 48",
        "set rightEdge to (item 3 of desktopBounds) - 24",
        "set bottomEdge to (item 4 of desktopBounds) - 48",
        "tell application id \"com.googlecode.iterm2\"",
        "  activate",
        "  create window with default profile",
        "  delay 0.2",
        "  set bounds of current window to {leftEdge, topEdge, rightEdge, bottomEdge}",
        "  set pane_0 to current session of current window",
        "  tell pane_0",
        "    write text \"p0\"",
        "  end tell",
        "    tell pane_0",
        "      set pane_1 to (split vertically with profile \"Dev\")",
        "    end tell",
        "    tell pane_1",
        "      write text \"p1\"",
        "    end tell",
        "    tell pane_0",
        "      set pane_2 to (split horizontally with default profile)",
        "    end tell",
        "    tell pane_2",
        "      write text \"p2\"",
        "    end tell",
        "    -- Maximized is requested; iTerm2 keeps the normal macOS window controls for this launch.",
        "end tell",
    ]
    .join("\n");
    assert_eq!(script, expected);
}

#[test]
fn iterm_applescript_numbers_sessions_by_column() {
    let plans: Vec<MacPanePlan> = (0..5).map(|i| plan(i + 1, "", "", "/x", &format!("s{i}"), "p", None)).collect();
    let script = build_iterm_applescript(&plans, "", false);
    assert!(script.contains("    tell pane_0\n      set pane_1 to (split vertically with default profile)\n    end tell\n    tell pane_1\n      write text \"s1\""));
    assert!(script.contains("    tell pane_0\n      set pane_2 to (split vertically with default profile)\n    end tell\n    tell pane_2\n      write text \"s2\""));
    assert!(script.contains("    tell pane_0\n      set pane_3 to (split horizontally with default profile)\n    end tell\n    tell pane_3\n      write text \"s3\""));
    assert!(script.contains("    tell pane_1\n      set pane_4 to (split horizontally with default profile)\n    end tell\n    tell pane_4\n      write text \"s4\""));
    assert!(script.ends_with("    end tell\nend tell"));
    assert!(!script.contains("pane_5"));
}

#[test]
fn macos_preview_for_iterm() {
    let plans = three_plans();
    let preview = build_macos_preview(&plans, "maximized", "SCRIPT", "iTerm2", "split panes");
    let expected = vec![
        "macOS iTerm2 launch plan",
        "Panes: 3",
        "Layout: split panes",
        "Window mode: maximized",
        "",
        "iTerm2 split grid: 2 columns x 2 rows",
        "",
        "Pane 1: (untitled)",
        "  Directory: /a",
        "  iTerm2 profile: default",
        "  Command: p0",
        "Pane 2: Two",
        "  Directory: /b",
        "  iTerm2 profile: Dev",
        "  Codex prompt delivery: direct",
        "  Command: p1",
        "Pane 4: Four",
        "  Directory: /d",
        "  iTerm2 profile: default",
        "  Codex prompt delivery: manual",
        "  Command: p2",
        "",
        "AppleScript preview:",
        "SCRIPT",
    ]
    .join("\n");
    assert_eq!(preview, expected);
}

#[test]
fn macos_preview_for_terminal_app() {
    let plans = vec![plan(1, "One", "Dev", "/a", "s", "p", None)];
    let preview = build_macos_preview(&plans, " ", "S", "Terminal.app", "separate windows");
    let expected = "macOS Terminal.app launch plan\nPanes: 1\nLayout: separate windows\nWindow mode: normal\n\nPane 1: One\n  Directory: /a\n  Command: p\n\nAppleScript preview:\nS";
    assert_eq!(preview, expected);
}

// ---------------------------------------------------------------- launch decisions

#[test]
fn launch_script_choice() {
    let plans = three_plans();
    let iterm = mac_launch_script(&plans, "normal", true, true);
    assert_eq!(iterm.terminal_name.as_str(), "iTerm2");
    assert_eq!(iterm.layout_description.as_str(), "split panes");
    assert_eq!(iterm.script, build_iterm_applescript(&plans, "normal", true));
    let terminal = mac_launch_script(&plans, "normal", false, false);
    assert_eq!(terminal.terminal_name.as_str(), "Terminal.app");
    assert_eq!(terminal.layout_description.as_str(), "separate Terminal windows (iTerm2 not installed)");
    assert_eq!(terminal.script, build_terminal_applescript(&plans, "normal", false));
}

#[test]
fn window_modes_and_outcomes() {
    assert_eq!(effective_window_mode("").as_str(), "normal");
    assert_eq!(effective_window_mode(" fullscreen ").as_str(), "fullscreen");
    assert_eq!(mac_launch_outcome("iTerm2", "PLAN", true, ""), Ok("macOS iTerm2 launch started.\nPLAN".to_string()));
    assert_eq!(mac_launch_outcome("iTerm2", "PLAN", false, " \n"), Err("iTerm2 AppleScript launch failed.".to_string()));
    assert_eq!(mac_launch_outcome("Terminal.app", "PLAN", false, " boom \n"), Err("boom".to_string()));
    assert_eq!(command_failure_message("", "fallback").as_str(), "fallback");
    assert_eq!(command_failure_message(" oops ", "fallback").as_str(), "oops");
}

#[test]
fn probe_scripts() {
    assert_eq!(command_exists_script("codex"), format!("{} command -v 'codex'", MAC_SHELL_BOOTSTRAP));
    assert_eq!(
        application_check_script("iTerm2", Some("com.googlecode.iterm2")).as_str(),
        "id of application id \"com.googlecode.iterm2\""
    );
    assert_eq!(application_check_script("Ter\"minal", None).as_str(), "id of application \"Terminal\"");
}

// ---------------------------------------------------------------- host decisions

#[test]
fn project_root_cases() {
    assert_eq!(project_root_choice("/w/app", true, &Some("app".to_string()), &Some("/w".to_string())), Ok("/w/app".to_string()));
    assert_eq!(project_root_choice("/w/app/src-tauri", false, &Some("src-tauri".to_string()), &Some("/w/app".to_string())), Ok("/w/app".to_string()));
    assert_eq!(
        project_root_choice("src-tauri", false, &Some("src-tauri".to_string()), &None),
        Err("Unable to resolve project root from src-tauri.".to_string())
    );
    assert_eq!(project_root_choice("/w/other", false, &Some("other".to_string()), &Some("/w".to_string())), Ok("/w/other".to_string()));
}

#[test]
fn windows_backend_cases() {
    assert_eq!(windows_backend_request(&None), None);
    assert_eq!(windows_backend_request(&Some("  ".to_string())), None);
    assert_eq!(windows_backend_request(&Some(" C:\\old ".to_string())), Some("C:\\old".to_string()));
    let detected: Result<String, String> = Err("Could not auto-detect the Windows PowerShell backend.".to_string());
    assert_eq!(resolve_windows_backend_path(&Some("C:\\old".to_string()), true, &detected), Ok("C:\\old".to_string()));
    assert_eq!(
        resolve_windows_backend_path(&Some("C:\\x".to_string()), false, &detected),
        Err("Windows backend path is invalid: C:\\x".to_string())
    );
    assert_eq!(resolve_windows_backend_path(&None, false, &detected), detected);
    assert_eq!(powershell_outcome(true, " out \n", "err"), Ok("out".to_string()));
    assert_eq!(powershell_outcome(false, " out ", " err "), Err("err".to_string()));
    assert_eq!(powershell_outcome(false, " out ", "  "), Err("out".to_string()));
    assert_eq!(windows_launch_started("ok").as_str(), "Launch started.\nok");
}

#[test]
fn template_name_cases() {
    assert_eq!(validate_template_name("codex的模板.md"), Ok("codex的模板.md".to_string()));
    assert_eq!(validate_template_name("a/b.md"), Err("Template name must not contain path separators.".to_string()));
    assert_eq!(validate_template_name(".."), Err("Template name is invalid.".to_string()));
    assert_eq!(validate_template_name(""), Err("Template name is invalid.".to_string()));
    assert_eq!(check_template_name("x", &Some("x".to_string())), Ok("x".to_string()));
    assert_eq!(check_template_name("d/x", &Some("x".to_string())), Err("Template name must not contain path separators.".to_string()));
    let checked = vec!["/p/templates/t.md".to_string(), backend_fallback_note("no backend")];
    assert_eq!(
        template_not_found_message("t.md", &checked).as_str(),
        "Template t.md was not found. Checked:\n/p/templates/t.md\nWindows backend fallback unavailable: no backend"
    );
}

#[test]
fn directory_selection_cases() {
    assert!(contains("abc", "bc"));
    assert!(contains("abc", ""));
    assert!(!contains("abc", "cd"));
    assert!(macos_selection_cancelled("execution error: User canceled. (-128)\n"));
    assert!(!macos_selection_cancelled("execution error: timeout"));
    assert_eq!(directory_selection_result(true, false, " /Users/me/code \n", "", "f"), Ok(Some("/Users/me/code".to_string())));
    assert_eq!(directory_selection_result(true, false, " \n", "", "f"), Ok(None));
    assert_eq!(directory_selection_result(false, true, "", "cancel", "f"), Ok(None));
    assert_eq!(directory_selection_result(false, false, "", " bad ", "f"), Err("bad".to_string()));
    assert_eq!(directory_selection_result(false, false, "", "", "macOS directory selection failed."), Err("macOS directory selection failed.".to_string()));
}

#[test]
fn windows_clipboard_script_doubles_quotes() {
    assert_eq!(
        windows_clipboard_script("C:\\Temp\\it's.txt").as_str(),
        "$p = 'C:\\Temp\\it''s.txt'; $text = [IO.File]::ReadAllText($p, [Text.UTF8Encoding]::new($false)); Set-Clipboard -Value $text"
    );
}

// ---------------------------------------------------------------- further laws

#[test]
fn safe_file_stem_is_idempotent_law() {
    for title in ["", "***", "My Pane/1", "--a b--", "中文_x", "a--b", " - "] {
        let stem = safe_file_stem(title);
        assert_eq!(safe_file_stem(&stem), stem);
    }
}

#[test]
fn normalized_delivery_is_idempotent_law() {
    for value in ["", " direct ", "file", "auto", "manual", "bogus"] {
        if let Ok(d) = normalized_delivery(value) {
            assert_eq!(normalized_delivery(&d), Ok(d.clone()));
        }
    }
}

#[test]
fn preview_script_is_launch_script_of_previews_law() {
    let plans = three_plans();
    let launched: Vec<MacPanePlan> = plans
        .iter()
        .map(|p| plan(p.pane_number, &p.title, &p.profile, &p.path, &p.preview_command, &p.preview_command, p.delivery.as_deref()))
        .collect();
    for mode in ["", "fullscreen", "maximized"] {
        assert_eq!(build_iterm_applescript(&plans, mode, true), build_iterm_applescript(&launched, mode, false));
        assert_eq!(build_terminal_applescript(&plans, mode, true), build_terminal_applescript(&launched, mode, false));
    }
}

#[test]
fn home_relative_paths_join_home_and_rest() {
    let home = Some("/Users/me".to_string());
    for path in ["~/work/app", "$HOME/work/app", "${HOME}/work/app"] {
        let resolved = resolve_launcher_path(path, &home);
        assert!(resolved.starts_with("/Users/me"));
        assert!(resolved.ends_with("work/app"));
        assert_eq!(resolved.as_str(), "/Users/me/work/app");
    }
    assert_eq!(resolve_launcher_path("~/x", &Some("/Users/me/".to_string())).as_str(), "/Users/me/x");
    assert_eq!(resolve_launcher_path("~/../shared", &home).as_str(), "/Users/me/../shared");
    assert_eq!(resolve_launcher_path("$HOME/./a:b", &home).as_str(), "/Users/me/./a:b");
}

#[test]
fn plain_template_names_are_accepted() {
    for name in ["foo.md", "codex的模板.md", ".hidden", "a b.md"] {
        assert_eq!(validate_template_name(name), Ok(name.to_string()));
    }
    for name in ["/abs.md", "dir/", "./x.md", "a/../b"] {
        assert!(validate_template_name(name).is_err());
    }
}

#[test]
fn template_search_takes_first_existing_place() {
    let candidates = vec![
        TemplateCandidate { checked: "/p/templates/t.md".to_string(), exists: false },
        TemplateCandidate { checked: "/r/templates/t.md".to_string(), exists: true },
        TemplateCandidate { checked: "/b/t.md".to_string(), exists: true },
    ];
    assert_eq!(search_template("t.md", &candidates), Ok(1));
    let missing = vec![
        TemplateCandidate { checked: "/p/templates/t.md".to_string(), exists: false },
        TemplateCandidate { checked: backend_fallback_note("no backend"), exists: false },
    ];
    assert_eq!(
        search_template("t.md", &missing),
        Err("Template t.md was not found. Checked:\n/p/templates/t.md\nWindows backend fallback unavailable: no backend".to_string())
    );
    assert_eq!(validate_template_name("."), Err("Template name is invalid.".to_string()));
}
