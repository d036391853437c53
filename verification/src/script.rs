//! The AppleScript that opens the planned panes (iTerm2 split panes or
//! Terminal.app windows), the grid that lays the panes out, and the
//! human-readable preview of a launch.

use vstd::prelude::*;
use crate::plan::{MacPanePlan, PlanView, mac_plan_command, plan_command_spec};
use crate::quote::{applescript_quote, applescript_quote_spec};
use crate::text::{
    decimal, is_blank, is_blank_spec, join, join_spec, push_str, str_eq, to_owned_string, trim,
    trim_ws, usize_to_string,
};

verus! {

// ---------------------------------------------------------------------------
// The grid
// ---------------------------------------------------------------------------

/// The number of columns for `n` panes: the ceiling of the square root of
/// `n`, but at most 5 (no columns for no panes).
pub open spec fn grid_column_count_spec(n: nat) -> nat {
    if n == 0 {
        0
    } else if n <= 1 {
        1
    } else if n <= 4 {
        2
    } else if n <= 9 {
        3
    } else if n <= 16 {
        4
    } else {
        5
    }
}

/// Law: the column count is the ceiling of the square root of the pane
/// count, capped at 5.
pub proof fn lemma_grid_column_count_is_capped_ceil_sqrt(n: nat)
    requires
        n >= 1,
    ensures
        ({
            let k = grid_column_count_spec(n);
            &&& 1 <= k <= 5
            &&& k <= n
            &&& (k - 1) * (k - 1) < n
            &&& (k * k >= n || k == 5)
        }),
{
    let k = grid_column_count_spec(n);
    if n <= 1 {
        assert(k == 1);
        assert((k - 1) * (k - 1) < n && k * k >= n) by (nonlinear_arith)
            requires
                k == 1,
                n == 1,
        ;
    } else if n <= 4 {
        assert((k - 1) * (k - 1) < n && k * k >= n) by (nonlinear_arith)
            requires
                k == 2,
                2 <= n <= 4,
        ;
    } else if n <= 9 {
        assert((k - 1) * (k - 1) < n && k * k >= n) by (nonlinear_arith)
            requires
                k == 3,
                5 <= n <= 9,
        ;
    } else if n <= 16 {
        assert((k - 1) * (k - 1) < n && k * k >= n) by (nonlinear_arith)
            requires
                k == 4,
                10 <= n <= 16,
        ;
    } else {
        assert((k - 1) * (k - 1) < n) by (nonlinear_arith)
            requires
                k == 5,
                17 <= n,
        ;
    }
}

/// The number of positions `idx`, `idx + k`, `idx + 2k`, ... below `n`.
pub open spec fn count_from(n: nat, k: nat, idx: nat) -> nat
    decreases (if idx < n {
        n - idx
    } else {
        0
    }),
{
    if k > 0 && idx < n {
        1 + count_from(n, k, idx + k)
    } else {
        0
    }
}

/// The number of panes in column `c` of a grid of `k` columns over `n` panes:
/// the panes `c`, `c + k`, `c + 2k`, ... below `n`.
pub open spec fn column_len(n: nat, k: nat, c: nat) -> nat {
    count_from(n, k, c)
}

/// The number of panes of the longest of the columns `c..k`.
pub open spec fn max_column_len(n: nat, k: nat, c: nat) -> nat
    decreases k - c,
{
    if c >= k {
        0
    } else {
        let rest = max_column_len(n, k, c + 1);
        if column_len(n, k, c) >= rest {
            column_len(n, k, c)
        } else {
            rest
        }
    }
}

/// The number of columns for `n` panes.
pub fn grid_column_count(n: usize) -> (k: usize)
    ensures
        k as nat == grid_column_count_spec(n as nat),
{
    if n == 0 {
        0
    } else if n <= 1 {
        1
    } else if n <= 4 {
        2
    } else if n <= 9 {
        3
    } else if n <= 16 {
        4
    } else {
        5
    }
}

proof fn lemma_count_from_step(n: nat, k: nat, idx: nat, r: nat)
    requires
        k > 0,
    ensures
        idx + r * k < n <==> r < count_from(n, k, idx),
    decreases r,
{
    if r > 0 {
        assert(idx + r * k == (idx + k) + (r - 1) * k) by (nonlinear_arith);
        if idx < n {
            lemma_count_from_step(n, k, idx + k, (r - 1) as nat);
        } else {
            assert(r * k >= 0) by (nonlinear_arith)
                requires
                    r >= 0,
                    k >= 0,
            ;
        }
    } else {
        assert(r * k == 0) by (nonlinear_arith)
            requires
                r == 0,
        ;
    }
}

/// The panes laid out in columns: pane `i` goes to column `i % k` (where `k`
/// is the column count), below the panes `i - k`, `i - 2k`, ... of that column.
pub fn get_grid_columns<T: Clone>(items: &[T]) -> (columns: Vec<Vec<T>>)
    requires
        items.len() <= usize::MAX - 5,
    ensures
        columns.len() == grid_column_count_spec(items.len() as nat),
        forall|c: int|
            0 <= c < columns.len() ==> #[trigger] columns[c].len() == column_len(
                items.len() as nat,
                columns.len() as nat,
                c as nat,
            ),
        forall|c: int, r: int|
            0 <= c < columns.len() && 0 <= r < columns[c].len() ==> cloned::<T>(
                items[c + r * columns.len()],
                #[trigger] columns[c][r],
            ),
{
    let n = items.len();
    let mut columns: Vec<Vec<T>> = Vec::new();
    if n == 0 {
        return columns;
    }
    let k = grid_column_count(n);
    let mut c: usize = 0;
    while c < k
        invariant
            1 <= k <= 5,
            k <= n,
            n == items.len(),
            n <= usize::MAX - 5,
            k as nat == grid_column_count_spec(n as nat),
            c <= k,
            columns.len() == c,
            forall|c2: int|
                0 <= c2 < c ==> #[trigger] columns[c2].len() == column_len(
                    n as nat,
                    k as nat,
                    c2 as nat,
                ),
            forall|c2: int, r: int|
                0 <= c2 < c && 0 <= r < columns[c2].len() ==> cloned::<T>(
                    items[c2 + r * k],
                    #[trigger] columns[c2][r],
                ),
        decreases k - c,
    {
        let mut column: Vec<T> = Vec::new();
        let mut idx = c;
        while idx < n
            invariant
                1 <= k <= 5,
                c < k <= n,
                n == items.len(),
                n <= usize::MAX - 5,
                idx == c + column.len() * k,
                idx < n + k,
                column_len(n as nat, k as nat, c as nat) == column.len() + count_from(
                    n as nat,
                    k as nat,
                    idx as nat,
                ),
                forall|r: int| 0 <= r < column.len() ==> cloned::<T>(items[c + r * k], #[trigger] column[r]),
            decreases n + k - idx,
        {
            let item = items[idx].clone();
            let ghost len0 = column.len();
            column.push(item);
            assert(idx + k == c + (len0 + 1) * k) by (nonlinear_arith)
                requires
                    idx == c + len0 * k,
            ;
            idx = idx + k;
        }
        if column.len() > 0 {
            columns.push(column);
        } else {
            assert(column_len(n as nat, k as nat, c as nat) > 0);
        }
        c = c + 1;
    }
    columns
}

/// Law: the grid places every pane exactly once: pane `i` is row `i / k` of
/// column `i % k`, and every row of every column holds such a pane.
pub proof fn lemma_grid_places_each_pane(n: nat, i: nat)
    requires
        i < n,
    ensures
        ({
            let k = grid_column_count_spec(n);
            &&& i % k < k
            &&& i / k < column_len(n, k, i % k)
            &&& (i % k) + (i / k) * k == i
        }),
{
    let k = grid_column_count_spec(n);
    assert(k >= 1);
    assert((i % k) + (i / k) * k == i) by (nonlinear_arith)
        requires
            k >= 1,
    ;
    lemma_count_from_step(n, k, i % k, i / k);
}

// ---------------------------------------------------------------------------
// AppleScript pieces
// ---------------------------------------------------------------------------

/// An iTerm2 action on `profile`: the default profile when blank.
pub open spec fn action_with_profile_spec(action: Seq<char>, profile: Seq<char>) -> Seq<char> {
    if is_blank_spec(profile) {
        action + " with default profile"@
    } else {
        action + " with profile "@ + applescript_quote_spec(profile)
    }
}

/// An iTerm2 action with the profile it uses.
pub fn action_with_profile(action: &str, profile: &str) -> (r: String)
    ensures
        r@ == action_with_profile_spec(action@, profile@),
{
    let mut r = to_owned_string(action);
    if is_blank(profile) {
        push_str(&mut r, " with default profile");
    } else {
        push_str(&mut r, " with profile ");
        let quoted = applescript_quote(profile);
        push_str(&mut r, quoted.as_str());
    }
    r
}

/// The views of some lines.
pub open spec fn views(lines: Seq<String>) -> Seq<Seq<char>> {
    lines.map_values(|s: String| s@)
}

fn push_line(lines: &mut Vec<String>, line: String)
    ensures
        views(final(lines)@) == views(old(lines)@).push(line@),
{
    let ghost before = lines@;
    let ghost lv = line@;
    lines.push(line);
    assert(views(lines@) =~= views(before).push(lv));
}

fn push_literal(lines: &mut Vec<String>, line: &str)
    ensures
        views(final(lines)@) == views(old(lines)@).push(line@),
{
    push_line(lines, to_owned_string(line));
}

/// A line holding `head` followed by `tail`.
fn concat2(head: &str, tail: &str) -> (r: String)
    ensures
        r@ == head@ + tail@,
{
    let mut r = to_owned_string(head);
    push_str(&mut r, tail);
    r
}

/// The AppleScript comment for a requested window mode, if any.
pub open spec fn window_mode_comment(
    mode: Seq<char>,
    fullscreen: Seq<char>,
    maximized: Seq<char>,
) -> Seq<Seq<char>> {
    if trim_ws(mode) == "fullscreen"@ {
        seq![fullscreen]
    } else if trim_ws(mode) == "maximized"@ {
        seq![maximized]
    } else {
        Seq::empty()
    }
}

fn push_window_mode_comment(lines: &mut Vec<String>, mode: &str, fullscreen: &str, maximized: &str)
    ensures
        views(final(lines)@) == views(old(lines)@) + window_mode_comment(
            mode@,
            fullscreen@,
            maximized@,
        ),
{
    let trimmed = trim(mode);
    if str_eq(trimmed.as_str(), "fullscreen") {
        push_literal(lines, fullscreen);
    } else if str_eq(trimmed.as_str(), "maximized") {
        push_literal(lines, maximized);
    } else {
        assert(views(lines@) =~= views(lines@) + Seq::<Seq<char>>::empty());
    }
}

// ---------------------------------------------------------------------------
// iTerm2
// ---------------------------------------------------------------------------

/// The AppleScript variable of the `v`-th iTerm2 session.
pub open spec fn pane_variable(v: nat) -> Seq<char> {
    "pane_"@ + decimal(v)
}

/// The opening of the iTerm2 script: measure the desktop, start iTerm2.
pub open spec fn iterm_header() -> Seq<Seq<char>> {
    seq![
        "tell application \"Finder\""@,
        "  set desktopBounds to bounds of window of desktop"@,
        "end tell"@,
        "set leftEdge to (item 1 of desktopBounds) + 24"@,
        "set topEdge to (item 2 of desktopBounds) + 48"@,
        "set rightEdge to (item 3 of desktopBounds) - 24"@,
        "set bottomEdge to (item 4 of desktopBounds) - 48"@,
        "tell application id \"com.googlecode.iterm2\""@,
        "  activate"@,
    ]
}

/// The first session: a new window over the desktop, running the first plan.
pub open spec fn iterm_first_block(first: PlanView, preview: bool) -> Seq<Seq<char>> {
    seq![
        "  "@ + action_with_profile_spec("create window"@, first.profile),
        "  delay 0.2"@,
        "  set bounds of current window to {leftEdge, topEdge, rightEdge, bottomEdge}"@,
        "  set pane_0 to current session of current window"@,
        "  tell pane_0"@,
        "    write text "@ + applescript_quote_spec(plan_command_spec(first, preview)),
        "  end tell"@,
    ]
}

/// A new session `variable` split off session `target` by `action`, running `plan`.
pub open spec fn split_block(
    target: Seq<char>,
    variable: Seq<char>,
    action: Seq<char>,
    plan: PlanView,
    preview: bool,
) -> Seq<Seq<char>> {
    seq![
        "    tell "@ + target,
        "      set "@ + variable + " to ("@ + action_with_profile_spec(action, plan.profile) + ")"@,
        "    end tell"@,
        "    tell "@ + variable,
        "      write text "@ + applescript_quote_spec(plan_command_spec(plan, preview)),
        "    end tell"@,
    ]
}

/// The tops of columns `c..k`: split vertically off the first session, the
/// top of column `c` being session `c`.
pub open spec fn iterm_top_section(plans: Seq<PlanView>, preview: bool, k: nat, c: nat) -> Seq<
    Seq<char>,
>
    decreases k - c,
{
    if c < k {
        split_block(
            pane_variable(0),
            pane_variable(c),
            "split vertically"@,
            plans[c as int],
            preview,
        ) + iterm_top_section(plans, preview, k, c + 1)
    } else {
        Seq::empty()
    }
}

/// The lower panes of columns `c..k`, from the pane `idx` of column `c` on:
/// each split horizontally off its column's top, the sessions numbered from `v`.
pub open spec fn iterm_split_section(
    plans: Seq<PlanView>,
    preview: bool,
    k: nat,
    c: nat,
    idx: nat,
    v: nat,
) -> Seq<Seq<char>>
    decreases k - c, (if idx < plans.len() {
        plans.len() - idx
    } else {
        0
    }),
{
    if k == 0 || c >= k {
        Seq::empty()
    } else if idx < plans.len() {
        split_block(
            pane_variable(c),
            pane_variable(v),
            "split horizontally"@,
            plans[idx as int],
            preview,
        ) + iterm_split_section(plans, preview, k, c, idx + k, v + 1)
    } else {
        iterm_split_section(plans, preview, k, c + 1, c + 1 + k, v)
    }
}

/// The lines of the iTerm2 script: the opening, the first session, the
/// column tops, the rest of each column, a note on the window mode, the end.
pub open spec fn iterm_lines(plans: Seq<PlanView>, window_mode: Seq<char>, preview: bool) -> Seq<
    Seq<char>,
> {
    let k = grid_column_count_spec(plans.len());
    iterm_header() + iterm_first_block(plans[0], preview) + iterm_top_section(
        plans,
        preview,
        k,
        1,
    ) + iterm_split_section(plans, preview, k, 0, k, k) + window_mode_comment(
        window_mode,
        "    -- Fullscreen is requested; use the iTerm2 profile/window shortcut if the window is not already fullscreen."@,
        "    -- Maximized is requested; iTerm2 keeps the normal macOS window controls for this launch."@,
    ) + seq!["end tell"@]
}

/// The views of some plans.
pub open spec fn plan_views(plans: Seq<MacPanePlan>) -> Seq<PlanView> {
    plans.map_values(|p: MacPanePlan| p@)
}

fn pane_variable_name(v: usize) -> (r: String)
    ensures
        r@ == pane_variable(v as nat),
{
    let digits = usize_to_string(v);
    concat2("pane_", digits.as_str())
}

fn push_split_block(
    lines: &mut Vec<String>,
    target: &String,
    variable: &String,
    action: &str,
    plan: &MacPanePlan,
    preview: bool,
)
    ensures
        views(final(lines)@) == views(old(lines)@) + split_block(
            target@,
            variable@,
            action@,
            plan@,
            preview,
        ),
{
    let ghost start = views(lines@);
    push_line(lines, concat2("    tell ", target.as_str()));
    let mut set_line = concat2("      set ", variable.as_str());
    push_str(&mut set_line, " to (");
    let act = action_with_profile(action, plan.profile.as_str());
    push_str(&mut set_line, act.as_str());
    push_str(&mut set_line, ")");
    push_line(lines, set_line);
    push_literal(lines, "    end tell");
    push_line(lines, concat2("    tell ", variable.as_str()));
    let quoted = applescript_quote(mac_plan_command(plan, preview));
    push_line(lines, concat2("      write text ", quoted.as_str()));
    push_literal(lines, "    end tell");
    assert(views(lines@) =~= start + split_block(target@, variable@, action@, plan@, preview));
}

/// The iTerm2 script that opens `plans` as split panes of one window (see
/// `iterm_lines`; the lines are joined with line feeds).
pub fn build_iterm_applescript(plans: &[MacPanePlan], window_mode: &str, preview: bool) -> (r:
    String)
    requires
        0 < plans.len() < usize::MAX / 8,
    ensures
        r@ == join_spec(iterm_lines(plan_views(plans@), window_mode@, preview), "\n"@),
{
    let ghost pv = plan_views(plans@);
    let n = plans.len();
    let k = grid_column_count(n);
    let mut lines: Vec<String> = Vec::new();
    push_literal(&mut lines, "tell application \"Finder\"");
    push_literal(&mut lines, "  set desktopBounds to bounds of window of desktop");
    push_literal(&mut lines, "end tell");
    push_literal(&mut lines, "set leftEdge to (item 1 of desktopBounds) + 24");
    push_literal(&mut lines, "set topEdge to (item 2 of desktopBounds) + 48");
    push_literal(&mut lines, "set rightEdge to (item 3 of desktopBounds) - 24");
    push_literal(&mut lines, "set bottomEdge to (item 4 of desktopBounds) - 48");
    push_literal(&mut lines, "tell application id \"com.googlecode.iterm2\"");
    push_literal(&mut lines, "  activate");
    assert(views(lines@) =~= iterm_header());
    let first = &plans[0];
    let create = action_with_profile("create window", first.profile.as_str());
    push_line(&mut lines, concat2("  ", create.as_str()));
    push_literal(&mut lines, "  delay 0.2");
    push_literal(
        &mut lines,
        "  set bounds of current window to {leftEdge, topEdge, rightEdge, bottomEdge}",
    );
    push_literal(&mut lines, "  set pane_0 to current session of current window");
    push_literal(&mut lines, "  tell pane_0");
    let first_quoted = applescript_quote(mac_plan_command(first, preview));
    push_line(&mut lines, concat2("    write text ", first_quoted.as_str()));
    push_literal(&mut lines, "  end tell");
    assert(pv[0] == first@);
    assert(views(lines@) =~= iterm_header() + iterm_first_block(pv[0], preview));
    let ghost opening = views(lines@);
    let pane_zero = pane_variable_name(0);
    let mut c: usize = 1;
    while c < k
        invariant
            1 <= c <= k + 1,
            k as nat == grid_column_count_spec(n as nat),
            1 <= k <= 5,
            k <= n,
            n == plans.len(),
            pv == plan_views(plans@),
            pane_zero@ == pane_variable(0),
            views(lines@) + iterm_top_section(pv, preview, k as nat, c as nat) == opening
                + iterm_top_section(pv, preview, k as nat, 1),
        decreases k - c,
    {
        let ghost before = views(lines@);
        let variable = pane_variable_name(c);
        assert(pv[c as int] == plans@[c as int]@);
        push_split_block(&mut lines, &pane_zero, &variable, "split vertically", &plans[c], preview);
        assert(iterm_top_section(pv, preview, k as nat, c as nat) == split_block(
            pane_variable(0),
            pane_variable(c as nat),
            "split vertically"@,
            pv[c as int],
            preview,
        ) + iterm_top_section(pv, preview, k as nat, (c + 1) as nat));
        assert(views(lines@) + iterm_top_section(pv, preview, k as nat, (c + 1) as nat) =~= before
            + iterm_top_section(pv, preview, k as nat, c as nat));
        c = c + 1;
    }
    assert(iterm_top_section(pv, preview, k as nat, c as nat) =~= Seq::<Seq<char>>::empty());
    assert(views(lines@) =~= opening + iterm_top_section(pv, preview, k as nat, 1));
    let ghost after_tops = views(lines@);
    let mut v: usize = k;
    let ghost mut bound: int = k as int;
    let mut c: usize = 0;
    while c < k
        invariant
            c <= k,
            k as nat == grid_column_count_spec(n as nat),
            1 <= k <= 5,
            k <= n,
            n == plans.len(),
            n < usize::MAX / 8,
            pv == plan_views(plans@),
            v <= bound,
            bound <= k + n * c,
            views(lines@) + iterm_split_section(pv, preview, k as nat, c as nat, (c + k) as nat, v as nat)
                == after_tops + iterm_split_section(pv, preview, k as nat, 0, k as nat, k as nat),
        decreases k - c,
    {
        let top = pane_variable_name(c);
        let mut idx: usize = c + k;
        let ghost v_start = v as int;
        while idx < n
            invariant
                c < k,
                1 <= k <= 5,
                k <= n,
                n == plans.len(),
                n < usize::MAX / 8,
                pv == plan_views(plans@),
                top@ == pane_variable(c as nat),
                c + k <= idx,
                idx < n + k,
                v - v_start <= idx - (c + k),
                v_start <= bound,
                bound <= k + n * c,
                views(lines@) + iterm_split_section(pv, preview, k as nat, c as nat, idx as nat, v as nat)
                    == after_tops + iterm_split_section(pv, preview, k as nat, 0, k as nat, k as nat),
            decreases n + k - idx,
        {
            let ghost before = views(lines@);
            let variable = pane_variable_name(v);
            assert(pv[idx as int] == plans@[idx as int]@);
            push_split_block(&mut lines, &top, &variable, "split horizontally", &plans[idx], preview);
            assert(views(lines@) + iterm_split_section(
                pv,
                preview,
                k as nat,
                c as nat,
                (idx + k) as nat,
                (v + 1) as nat,
            ) =~= before + iterm_split_section(
                pv,
                preview,
                k as nat,
                c as nat,
                idx as nat,
                v as nat,
            ));
            assert(n * c >= 0) by (nonlinear_arith)
                requires
                    c >= 0,
                    n >= 0,
            ;
            v = v + 1;
            idx = idx + k;
        }
        proof {
            assert(bound + n <= k + n * (c + 1)) by (nonlinear_arith)
                requires
                    bound <= k + n * c,
            ;
            bound = bound + n;
        }
        c = c + 1;
    }
    assert(iterm_split_section(pv, preview, k as nat, c as nat, (c + k) as nat, v as nat)
        =~= Seq::<Seq<char>>::empty());
    assert(views(lines@) =~= after_tops + iterm_split_section(
        pv,
        preview,
        k as nat,
        0,
        k as nat,
        k as nat,
    ));
    let ghost before_tail = views(lines@);
    push_window_mode_comment(
        &mut lines,
        window_mode,
        "    -- Fullscreen is requested; use the iTerm2 profile/window shortcut if the window is not already fullscreen.",
        "    -- Maximized is requested; iTerm2 keeps the normal macOS window controls for this launch.",
    );
    push_literal(&mut lines, "end tell");
    assert(views(lines@) =~= iterm_lines(pv, window_mode@, preview));
    join(&lines, "\n")
}

/// The plans as a launch would run them if every plan's launch command were
/// its preview command.
pub open spec fn previews_as_launched(plans: Seq<PlanView>) -> Seq<PlanView> {
    plans.map_values(|p: PlanView| PlanView { shell_command: p.preview_command, ..p })
}

proof fn lemma_split_block_preview(
    target: Seq<char>,
    variable: Seq<char>,
    action: Seq<char>,
    plans: Seq<PlanView>,
    i: int,
)
    requires
        0 <= i < plans.len(),
    ensures
        split_block(target, variable, action, plans[i], true) == split_block(
            target,
            variable,
            action,
            previews_as_launched(plans)[i],
            false,
        ),
{
}

proof fn lemma_top_section_preview(plans: Seq<PlanView>, k: nat, c: nat)
    requires
        k <= plans.len(),
    ensures
        iterm_top_section(plans, true, k, c) == iterm_top_section(
            previews_as_launched(plans),
            false,
            k,
            c,
        ),
    decreases k - c,
{
    if c < k {
        lemma_top_section_preview(plans, k, c + 1);
        lemma_split_block_preview(pane_variable(0), pane_variable(c), "split vertically"@, plans, c as int);
    }
}

proof fn lemma_split_section_preview(plans: Seq<PlanView>, k: nat, c: nat, idx: nat, v: nat)
    ensures
        iterm_split_section(plans, true, k, c, idx, v) == iterm_split_section(
            previews_as_launched(plans),
            false,
            k,
            c,
            idx,
            v,
        ),
    decreases k - c, (if idx < plans.len() {
        plans.len() - idx
    } else {
        0
    }),
{
    if k == 0 || c >= k {
    } else if idx < plans.len() {
        lemma_split_section_preview(plans, k, c, idx + k, v + 1);
        lemma_split_block_preview(pane_variable(c), pane_variable(v), "split horizontally"@, plans, idx as int);
    } else {
        lemma_split_section_preview(plans, k, c + 1, c + 1 + k, v);
    }
}

/// Law: the iTerm2 preview script is the launch script of the same plans with
/// every launch command replaced by the preview command: the preview flag
/// picks which command each session is given, never the layout, the
/// profiles or the session variables.
pub proof fn lemma_iterm_preview_is_launch_of_previews(plans: Seq<PlanView>, window_mode: Seq<char>)
    requires
        plans.len() > 0,
    ensures
        iterm_lines(plans, window_mode, true) == iterm_lines(
            previews_as_launched(plans),
            window_mode,
            false,
        ),
{
    let q = previews_as_launched(plans);
    let k = grid_column_count_spec(plans.len());
    lemma_grid_column_count_is_capped_ceil_sqrt(plans.len());
    lemma_top_section_preview(plans, k, 1);
    lemma_split_section_preview(plans, k, 0, k, k);
    assert(iterm_first_block(plans[0], true) == iterm_first_block(q[0], false));
}

// ---------------------------------------------------------------------------
// Terminal.app
// ---------------------------------------------------------------------------

/// One `do script` line per plan, from plan `i` on.
pub open spec fn terminal_script_lines(plans: Seq<PlanView>, preview: bool, i: nat) -> Seq<Seq<char>>
    decreases plans.len() - i,
{
    if i < plans.len() {
        seq!["  do script "@ + applescript_quote_spec(plan_command_spec(plans[i as int], preview))]
            + terminal_script_lines(plans, preview, i + 1)
    } else {
        Seq::empty()
    }
}

proof fn lemma_terminal_section_preview(plans: Seq<PlanView>, i: nat)
    ensures
        terminal_script_lines(plans, true, i) == terminal_script_lines(
            previews_as_launched(plans),
            false,
            i,
        ),
    decreases plans.len() - i,
{
    if i < plans.len() {
        lemma_terminal_section_preview(plans, i + 1);
    }
}

/// Law: the Terminal.app preview script is the launch script of the same
/// plans with every launch command replaced by the preview command.
pub proof fn lemma_terminal_preview_is_launch_of_previews(
    plans: Seq<PlanView>,
    window_mode: Seq<char>,
)
    ensures
        terminal_lines(plans, window_mode, true) == terminal_lines(
            previews_as_launched(plans),
            window_mode,
            false,
        ),
{
    lemma_terminal_section_preview(plans, 0);
}

/// The lines of the Terminal.app script: one window per plan, a note on the
/// window mode, the end.
pub open spec fn terminal_lines(plans: Seq<PlanView>, window_mode: Seq<char>, preview: bool) -> Seq<
    Seq<char>,
> {
    seq!["tell application \"Terminal\""@, "  activate"@] + terminal_script_lines(plans, preview, 0)
        + window_mode_comment(
        window_mode,
        "  -- Fullscreen is requested; Terminal.app opens normal windows through AppleScript."@,
        "  -- Maximized is requested; Terminal.app opens normal windows through AppleScript."@,
    ) + seq!["end tell"@]
}

/// The Terminal.app script that opens one window per plan (see
/// `terminal_lines`; the lines are joined with line feeds).
pub fn build_terminal_applescript(plans: &[MacPanePlan], window_mode: &str, preview: bool) -> (r:
    String)
    ensures
        r@ == join_spec(terminal_lines(plan_views(plans@), window_mode@, preview), "\n"@),
{
    let ghost pv = plan_views(plans@);
    let mut lines: Vec<String> = Vec::new();
    push_literal(&mut lines, "tell application \"Terminal\"");
    push_literal(&mut lines, "  activate");
    let ghost opening = views(lines@);
    let mut i: usize = 0;
    while i < plans.len()
        invariant
            i <= plans.len(),
            pv == plan_views(plans@),
            views(lines@) + terminal_script_lines(pv, preview, i as nat) == opening
                + terminal_script_lines(pv, preview, 0),
        decreases plans.len() - i,
    {
        let ghost before = views(lines@);
        let quoted = applescript_quote(mac_plan_command(&plans[i], preview));
        assert(pv[i as int] == plans@[i as int]@);
        push_line(&mut lines, concat2("  do script ", quoted.as_str()));
        assert(views(lines@) + terminal_script_lines(pv, preview, (i + 1) as nat) =~= before
            + terminal_script_lines(pv, preview, i as nat));
        i = i + 1;
    }
    assert(terminal_script_lines(pv, preview, i as nat) =~= Seq::<Seq<char>>::empty());
    push_window_mode_comment(
        &mut lines,
        window_mode,
        "  -- Fullscreen is requested; Terminal.app opens normal windows through AppleScript.",
        "  -- Maximized is requested; Terminal.app opens normal windows through AppleScript.",
    );
    push_literal(&mut lines, "end tell");
    assert(views(lines@) =~= terminal_lines(pv, window_mode@, preview));
    join(&lines, "\n")
}

// ---------------------------------------------------------------------------
// Preview
// ---------------------------------------------------------------------------

/// The preview lines of one plan; the profile line only for iTerm2, the
/// delivery line only for Codex panes.
pub open spec fn preview_plan_lines(plan: PlanView, iterm: bool) -> Seq<Seq<char>> {
    seq![
        "Pane "@ + decimal(plan.pane_number) + ": "@ + (if is_blank_spec(plan.title) {
            "(untitled)"@
        } else {
            plan.title
        }),
        "  Directory: "@ + plan.path,
    ] + (if iterm {
        seq![
            "  iTerm2 profile: "@ + if is_blank_spec(plan.profile) {
                "default"@
            } else {
                plan.profile
            },
        ]
    } else {
        Seq::empty()
    }) + (match plan.delivery {
        Some(d) => seq!["  Codex prompt delivery: "@ + d],
        None => Seq::empty(),
    }) + seq!["  Command: "@ + plan.preview_command]
}

/// The preview lines of the plans from plan `i` on.
pub open spec fn preview_plans_section(plans: Seq<PlanView>, iterm: bool, i: nat) -> Seq<Seq<char>>
    decreases plans.len() - i,
{
    if i < plans.len() {
        preview_plan_lines(plans[i as int], iterm) + preview_plans_section(plans, iterm, i + 1)
    } else {
        Seq::empty()
    }
}

/// The lines of a launch preview: the terminal, the pane count, the layout
/// and the window mode (`normal` when blank); for iTerm2 the grid size;
/// each plan; and the AppleScript itself.
pub open spec fn preview_lines(
    plans: Seq<PlanView>,
    window_mode: Seq<char>,
    script: Seq<char>,
    terminal_name: Seq<char>,
    layout_description: Seq<char>,
) -> Seq<Seq<char>> {
    let iterm = terminal_name == "iTerm2"@;
    let n = plans.len();
    let k = grid_column_count_spec(n);
    seq![
        "macOS "@ + terminal_name + " launch plan"@,
        "Panes: "@ + decimal(n),
        "Layout: "@ + layout_description,
        "Window mode: "@ + if is_blank_spec(window_mode) {
            "normal"@
        } else {
            window_mode
        },
        Seq::empty(),
    ] + (if iterm {
        seq![
            "iTerm2 split grid: "@ + decimal(k) + " columns x "@ + decimal(max_column_len(n, k, 0))
                + " rows"@,
            Seq::empty(),
        ]
    } else {
        Seq::empty()
    }) + preview_plans_section(plans, iterm, 0) + seq![
        Seq::empty(),
        "AppleScript preview:"@,
        script,
    ]
}

/// No column is longer than the first.
proof fn lemma_first_column_longest(n: nat, k: nat, c: nat)
    requires
        k > 0,
    ensures
        column_len(n, k, c) <= column_len(n, k, 0),
        max_column_len(n, k, c) <= column_len(n, k, 0),
    decreases k - c,
{
    let m = column_len(n, k, c);
    if m > column_len(n, k, 0) {
        lemma_count_from_step(n, k, c, (m - 1) as nat);
        lemma_count_from_step(n, k, 0, (m - 1) as nat);
    }
    if c < k {
        lemma_first_column_longest(n, k, c + 1);
    }
}

/// Law: the grid line of an iTerm2 preview gives the column count and, as the
/// row count, the length `r` of the longest column: the least `r` with
/// `n <= r * k` for `n` panes in `k` columns (so that `(r - 1) * k < n`).
pub proof fn lemma_preview_grid_line(
    plans: Seq<PlanView>,
    window_mode: Seq<char>,
    script: Seq<char>,
    layout_description: Seq<char>,
)
    requires
        plans.len() >= 1,
    ensures
        ({
            let n = plans.len();
            let k = grid_column_count_spec(n);
            let lines = preview_lines(plans, window_mode, script, "iTerm2"@, layout_description);
            exists|r: nat|
                #![trigger decimal(r)]
                (r - 1) * k < n && n <= r * k && lines[5] == "iTerm2 split grid: "@ + decimal(k)
                    + " columns x "@ + decimal(r) + " rows"@
        }),
{
    let n = plans.len();
    let k = grid_column_count_spec(n);
    lemma_grid_column_count_is_capped_ceil_sqrt(n);
    let r = column_len(n, k, 0);
    assert(r >= 1);
    lemma_count_from_step(n, k, 0, (r - 1) as nat);
    lemma_count_from_step(n, k, 0, r);
    lemma_first_column_longest(n, k, 1);
    assert(max_column_len(n, k, 0) == r);
    let lines = preview_lines(plans, window_mode, script, "iTerm2"@, layout_description);
    assert(lines[5] == "iTerm2 split grid: "@ + decimal(k) + " columns x "@ + decimal(r) + " rows"@);
}

fn column_length(n: usize, k: usize, c: usize) -> (r: usize)
    requires
        1 <= k <= 5,
        n < usize::MAX / 8,
    ensures
        r as nat == column_len(n as nat, k as nat, c as nat),
{
    let mut count: usize = 0;
    let mut idx = c;
    if idx >= n {
        return 0;
    }
    while idx < n
        invariant
            1 <= k <= 5,
            n < usize::MAX / 8,
            idx < n + k,
            count <= idx,
            count + count_from(n as nat, k as nat, idx as nat) == column_len(
                n as nat,
                k as nat,
                c as nat,
            ),
        decreases n + k - idx,
    {
        count = count + 1;
        idx = idx + k;
    }
    count
}

fn max_column_length(n: usize, k: usize) -> (r: usize)
    requires
        1 <= k <= 5,
        n < usize::MAX / 8,
    ensures
        r as nat == max_column_len(n as nat, k as nat, 0),
{
    let mut best: usize = 0;
    let mut c: usize = k;
    while c > 0
        invariant
            c <= k,
            1 <= k <= 5,
            n < usize::MAX / 8,
            best as nat == max_column_len(n as nat, k as nat, c as nat),
        decreases c,
    {
        c = c - 1;
        let len = column_length(n, k, c);
        if len >= best {
            best = len;
        }
    }
    best
}

fn push_preview_plan_lines(lines: &mut Vec<String>, plan: &MacPanePlan, iterm: bool)
    ensures
        views(final(lines)@) == views(old(lines)@) + preview_plan_lines(plan@, iterm),
{
    let ghost start = views(lines@);
    let mut head = to_owned_string("Pane ");
    let digits = usize_to_string(plan.pane_number);
    push_str(&mut head, digits.as_str());
    push_str(&mut head, ": ");
    if is_blank(plan.title.as_str()) {
        push_str(&mut head, "(untitled)");
    } else {
        push_str(&mut head, plan.title.as_str());
    }
    push_line(lines, head);
    push_line(lines, concat2("  Directory: ", plan.path.as_str()));
    let ghost mid1 = views(lines@);
    if iterm {
        if is_blank(plan.profile.as_str()) {
            push_literal(lines, "  iTerm2 profile: default");
            proof {
                reveal_strlit("  iTerm2 profile: default");
                reveal_strlit("  iTerm2 profile: ");
                reveal_strlit("default");
                assert("  iTerm2 profile: default"@ =~= "  iTerm2 profile: "@ + "default"@);
            }
        } else {
            push_line(lines, concat2("  iTerm2 profile: ", plan.profile.as_str()));
        }
    }
    let ghost mid2 = views(lines@);
    match &plan.delivery {
        Some(d) => push_line(lines, concat2("  Codex prompt delivery: ", d.as_str())),
        None => {},
    }
    push_line(lines, concat2("  Command: ", plan.preview_command.as_str()));
    assert(views(lines@) =~= start + preview_plan_lines(plan@, iterm));
}

/// The human-readable preview of a macOS launch (see `preview_lines`; the
/// lines are joined with line feeds).
pub fn build_macos_preview(
    plans: &[MacPanePlan],
    window_mode: &str,
    script: &str,
    terminal_name: &str,
    layout_description: &str,
) -> (r: String)
    requires
        plans.len() < usize::MAX / 8,
    ensures
        r@ == join_spec(
            preview_lines(
                plan_views(plans@),
                window_mode@,
                script@,
                terminal_name@,
                layout_description@,
            ),
            "\n"@,
        ),
{
    let ghost pv = plan_views(plans@);
    let n = plans.len();
    let k = grid_column_count(n);
    let iterm = str_eq(terminal_name, "iTerm2");
    let mut lines: Vec<String> = Vec::new();
    let mut title = concat2("macOS ", terminal_name);
    push_str(&mut title, " launch plan");
    push_line(&mut lines, title);
    let count = usize_to_string(n);
    push_line(&mut lines, concat2("Panes: ", count.as_str()));
    push_line(&mut lines, concat2("Layout: ", layout_description));
    if is_blank(window_mode) {
        push_literal(&mut lines, "Window mode: normal");
        proof {
            reveal_strlit("Window mode: normal");
            reveal_strlit("Window mode: ");
            reveal_strlit("normal");
            assert("Window mode: normal"@ =~= "Window mode: "@ + "normal"@);
        }
    } else {
        push_line(&mut lines, concat2("Window mode: ", window_mode));
    }
    push_line(&mut lines, String::new());
    let ghost opening = views(lines@);
    if iterm {
        let rows = if n == 0 {
            0
        } else {
            max_column_length(n, k)
        };
        proof {
            if n == 0 {
                assert(max_column_len(0, 0, 0) == 0);
            }
        }
        let columns_text = usize_to_string(k);
        let rows_text = usize_to_string(rows);
        let mut grid = concat2("iTerm2 split grid: ", columns_text.as_str());
        push_str(&mut grid, " columns x ");
        push_str(&mut grid, rows_text.as_str());
        push_str(&mut grid, " rows");
        push_line(&mut lines, grid);
        push_line(&mut lines, String::new());
    }
    let ghost head = views(lines@);
    let mut i: usize = 0;
    while i < plans.len()
        invariant
            i <= plans.len(),
            pv == plan_views(plans@),
            views(lines@) + preview_plans_section(pv, iterm, i as nat) == head
                + preview_plans_section(pv, iterm, 0),
        decreases plans.len() - i,
    {
        let ghost before = views(lines@);
        assert(pv[i as int] == plans@[i as int]@);
        push_preview_plan_lines(&mut lines, &plans[i], iterm);
        assert(views(lines@) + preview_plans_section(pv, iterm, (i + 1) as nat) =~= before
            + preview_plans_section(pv, iterm, i as nat));
        i = i + 1;
    }
    assert(preview_plans_section(pv, iterm, i as nat) =~= Seq::<Seq<char>>::empty());
    push_line(&mut lines, String::new());
    push_literal(&mut lines, "AppleScript preview:");
    push_line(&mut lines, to_owned_string(script));
    assert(views(lines@) =~= preview_lines(
        pv,
        window_mode@,
        script@,
        terminal_name@,
        layout_description@,
    ));
    join(&lines, "\n")
}

} // verus!
